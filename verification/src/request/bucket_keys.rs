//! The bucket keys of a region, as a keyspace sees them.

use vstd::prelude::*;

use crate::common::errors::Result;
use crate::kv::codec::{decode_bytes_in_place, decoded_or_empty, DecodeFailure};
use crate::kv::order::{
    bytes_eq, bytes_lt, bytes_to_vec, lemma_lex_not_lt, lex_le, lex_lt,
};
use crate::proto::metapb::byte_strings;
use crate::request::keyspace::{
    end_prefix_of, keyspace_end_prefix, keyspace_prefix, prefix_of, KeyMode, Keyspace,
    KEYSPACE_PREFIX_LEN,
};

verus! {

/// What becomes of a bucket key in a keyspace.
pub enum BucketCut {
    /// It stays, as a key of the keyspace.
    Keep(Seq<u8>),
    /// It lies outside the keyspace.
    Skip,
    /// It lies behind the keyspace, which ends the buckets.
    Last,
    /// It is no encoded key.
    Fail(DecodeFailure),
}

/// What becomes of a bucket key in the keyspace with the given prefix and end. An empty key is an
/// end of the key space and stays one.
pub open spec fn bucket_cut(key: Seq<u8>, prefix: Seq<u8>, end: Seq<u8>) -> BucketCut {
    match decoded_or_empty(key) {
        Err(failure) => BucketCut::Fail(failure),
        Ok(decoded) => if decoded.len() == 0 {
            BucketCut::Keep(decoded)
        } else if lex_lt(decoded, prefix) {
            BucketCut::Skip
        } else if lex_le(end, decoded) {
            BucketCut::Last
        } else if prefix.is_prefix_of(decoded) {
            BucketCut::Keep(decoded.skip(prefix.len() as int))
        } else {
            BucketCut::Skip
        },
    }
}

/// The keys with one more, unless it repeats the last one.
pub open spec fn push_dedup(keys: Seq<Seq<u8>>, key: Seq<u8>) -> Seq<Seq<u8>> {
    if keys.len() > 0 && keys.last() == key {
        keys
    } else {
        keys.push(key)
    }
}

/// The keys that stay, in order and without repetitions, after those in `kept`.
pub open spec fn cut_buckets(
    keys: Seq<Seq<u8>>,
    prefix: Seq<u8>,
    end: Seq<u8>,
    kept: Seq<Seq<u8>>,
) -> core::result::Result<Seq<Seq<u8>>, DecodeFailure>
    decreases keys.len(),
{
    if keys.len() == 0 {
        Ok(kept)
    } else {
        match bucket_cut(keys[0], prefix, end) {
            BucketCut::Keep(key) => cut_buckets(keys.skip(1), prefix, end, push_dedup(kept, key)),
            BucketCut::Skip => cut_buckets(keys.skip(1), prefix, end, kept),
            BucketCut::Last => Ok(push_dedup(kept, Seq::empty())),
            BucketCut::Fail(failure) => Err(failure),
        }
    }
}

/// The keys between two empty ones, which stand for the ends of the keyspace.
pub open spec fn close_ends(keys: Seq<Seq<u8>>) -> Seq<Seq<u8>> {
    let opened = if keys.len() == 0 || keys.first().len() > 0 {
        seq![Seq::<u8>::empty()] + keys
    } else {
        keys
    };
    if opened.last().len() > 0 {
        opened.push(Seq::empty())
    } else {
        opened
    }
}

/// The bucket keys of a region, as a keyspace sees them.
pub open spec fn keyspace_buckets(
    keys: Seq<Seq<u8>>,
    keyspace: Keyspace,
    key_mode: KeyMode,
) -> core::result::Result<Seq<Seq<u8>>, DecodeFailure> {
    match keyspace {
        Keyspace::Disable => Ok(keys),
        Keyspace::Enable { keyspace_id } => match cut_buckets(
            keys,
            prefix_of(keyspace_id, key_mode),
            end_prefix_of(keyspace_id, key_mode),
            Seq::empty(),
        ) {
            Ok(kept) => Ok(close_ends(kept)),
            Err(failure) => Err(failure),
        },
    }
}

/// Append a key, unless it repeats the last one.
pub fn push_dedup_key(keys: &mut Vec<Vec<u8>>, key: Vec<u8>)
    ensures
        byte_strings(final(keys)@) == push_dedup(byte_strings(old(keys)@), key@),
{
    let ghost before = byte_strings(keys@);
    if keys.len() > 0 {
        if bytes_eq(&keys[keys.len() - 1], &key) {
            return;
        }
    }
    keys.push(key);
    assert(byte_strings(keys@) =~= before.push(key@));
}

fn starts_with(key: &[u8], prefix: &[u8]) -> (r: bool)
    ensures
        r == prefix@.is_prefix_of(key@),
{
    if key.len() < prefix.len() {
        return false;
    }
    let mut i: usize = 0;
    while i < prefix.len()
        invariant
            i <= prefix.len() <= key.len(),
            forall|k: int| 0 <= k < i ==> key@[k] == prefix@[k],
        decreases prefix.len() - i,
    {
        if key[i] != prefix[i] {
            assert(key@.subrange(0, prefix@.len() as int)[i as int] != prefix@[i as int]);
            return false;
        }
        i = i + 1;
    }
    assert(prefix@ =~= key@.subrange(0, prefix@.len() as int));
    true
}

/// Cut the bucket keys of a region down to a keyspace, and strip its prefix from them.
///
/// The result starts and ends with an empty key, for the ends of the keyspace. Without a keyspace
/// the keys stay as they are.
#[verifier::loop_isolation(false)]
pub fn decode_bucket_keys(bucket_keys: Vec<Vec<u8>>, keyspace: Keyspace, key_mode: KeyMode) -> (r:
    Result<Vec<Vec<u8>>>)
    ensures
        match keyspace_buckets(byte_strings(bucket_keys@), keyspace, key_mode) {
            Ok(keys) => r is Ok && byte_strings(r->Ok_0@) == keys,
            Err(failure) => r is Err && r->Err_0.is_internal(failure.text()),
        },
{
    let keyspace_id: u32 = match keyspace {
        Keyspace::Disable => {
            return Ok(bucket_keys);
        },
        Keyspace::Enable { keyspace_id } => keyspace_id,
    };
    let prefix = keyspace_prefix(keyspace_id, key_mode);
    let end = keyspace_end_prefix(keyspace_id, key_mode);
    let ghost input = byte_strings(bucket_keys@);
    let ghost whole = cut_buckets(input, prefix@, end@, Seq::empty());

    let mut keys = bucket_keys;
    let mut kept: Vec<Vec<u8>> = Vec::new();
    let mut i: usize = 0;
    let mut more: bool = true;
    assert(input.skip(0) =~= input);
    assert(byte_strings(kept@) =~= Seq::<Seq<u8>>::empty());
    while more && i < keys.len()
        invariant
            i <= keys.len(),
            keys@.len() == input.len(),
            prefix@.len() == 4,
            forall|k: int| i <= k < keys@.len() ==> keys@[k]@ == input[k],
            more ==> whole == cut_buckets(
                input.skip(i as int),
                prefix@,
                end@,
                byte_strings(kept@),
            ),
            !more ==> whole == Ok::<Seq<Seq<u8>>, DecodeFailure>(byte_strings(kept@)),
        decreases keys.len() - i,
    {
        let ghost rest = input.skip(i as int);
        proof {
            assert(rest[0] == input[i as int]);
            assert(rest.skip(1) =~= input.skip(i + 1));
        }
        match decode_bytes_in_place(&mut keys[i]) {
            Err(error) => {
                return Err(error);
            },
            Ok(()) => {},
        }
        let key = bytes_to_vec(&keys[i]);
        proof {
            lemma_lex_not_lt(key@, end@);
        }
        if key.len() == 0 {
            assert(key@ =~= Seq::<u8>::empty());
            push_dedup_key(&mut kept, Vec::new());
        } else if bytes_lt(&key, &prefix) {
        } else if !bytes_lt(&key, &end) {
            push_dedup_key(&mut kept, Vec::new());
            more = false;
        } else if starts_with(&key, &prefix) {
            let mut key = key;
            let ghost full = key@;
            let tail = key.split_off(KEYSPACE_PREFIX_LEN);
            assert(tail@ =~= full.skip(4));
            push_dedup_key(&mut kept, tail);
        }
        i = i + 1;
    }
    assert(!more || input.skip(i as int).len() == 0);

    let ghost cut = byte_strings(kept@);
    if kept.len() == 0 || kept[0].len() > 0 {
        assert(cut.len() > 0 ==> cut[0] == kept@[0]@);
        kept.insert(0, Vec::new());
        assert(byte_strings(kept@) =~= seq![Seq::<u8>::empty()] + cut);
    }
    let ghost opened = byte_strings(kept@);
    assert(opened.last() == kept@.last()@);
    if kept[kept.len() - 1].len() > 0 {
        kept.push(Vec::new());
        assert(byte_strings(kept@) =~= opened.push(Seq::empty()));
    }
    Ok(kept)
}

/// No key equals the one before it.
pub open spec fn no_repetitions(keys: Seq<Seq<u8>>) -> bool {
    forall|i: int| 0 < i < keys.len() ==> #[trigger] keys[i] != keys[i - 1]
}

/// Each key comes from a bucket key that lies in the keyspace, or is empty.
pub open spec fn come_from(keys: Seq<Seq<u8>>, input: Seq<Seq<u8>>, prefix: Seq<u8>) -> bool {
    forall|i: int|
        0 <= i < keys.len() ==> #[trigger] keys[i].len() == 0 || exists|j: int|
            0 <= j < input.len() && decoded_or_empty(#[trigger] input[j]) == Ok::<
                Seq<u8>,
                DecodeFailure,
            >(prefix + keys[i])
}

proof fn lemma_cut_buckets(
    keys: Seq<Seq<u8>>,
    input: Seq<Seq<u8>>,
    prefix: Seq<u8>,
    end: Seq<u8>,
    kept: Seq<Seq<u8>>,
)
    requires
        no_repetitions(kept),
        come_from(kept, input, prefix),
        keys.len() <= input.len(),
        keys == input.skip(input.len() - keys.len()),
        cut_buckets(keys, prefix, end, kept) is Ok,
    ensures
        no_repetitions(cut_buckets(keys, prefix, end, kept)->Ok_0),
        come_from(cut_buckets(keys, prefix, end, kept)->Ok_0, input, prefix),
    decreases keys.len(),
{
    if keys.len() > 0 {
        let at = input.len() - keys.len();
        assert(keys[0] == input[at]);
        assert(keys.skip(1) =~= input.skip(at + 1));
        match bucket_cut(keys[0], prefix, end) {
            BucketCut::Keep(key) => {
                let decoded = decoded_or_empty(keys[0])->Ok_0;
                if decoded.len() > 0 {
                    assert(decoded =~= prefix + key);
                }
                let next = push_dedup(kept, key);
                assert(come_from(next, input, prefix)) by {
                    assert forall|i: int| 0 <= i < next.len() implies #[trigger] next[i].len() == 0
                        || exists|j: int|
                        0 <= j < input.len() && decoded_or_empty(#[trigger] input[j]) == Ok::<
                            Seq<u8>,
                            DecodeFailure,
                        >(prefix + next[i]) by {
                        if i < kept.len() {
                            assert(next[i] == kept[i]);
                        } else {
                            assert(next[i] == key);
                            assert(decoded_or_empty(input[at]) == Ok::<Seq<u8>, DecodeFailure>(
                                decoded,
                            ));
                        }
                    }
                }
                lemma_cut_buckets(keys.skip(1), input, prefix, end, next);
            },
            BucketCut::Skip => {
                lemma_cut_buckets(keys.skip(1), input, prefix, end, kept);
            },
            BucketCut::Last => {
                let next = push_dedup(kept, Seq::empty());
                assert forall|i: int| 0 <= i < next.len() implies #[trigger] next[i].len() == 0
                    || exists|j: int|
                    0 <= j < input.len() && decoded_or_empty(#[trigger] input[j]) == Ok::<
                        Seq<u8>,
                        DecodeFailure,
                    >(prefix + next[i]) by {
                    if i < kept.len() {
                        assert(next[i] == kept[i]);
                    }
                }
            },
            BucketCut::Fail(failure) => {},
        }
    }
}

proof fn lemma_open_end(kept: Seq<Seq<u8>>, input: Seq<Seq<u8>>, prefix: Seq<u8>)
    requires
        no_repetitions(kept),
        come_from(kept, input, prefix),
        kept.len() == 0 || kept.first().len() > 0,
    ensures
        no_repetitions(seq![Seq::<u8>::empty()] + kept),
        come_from(seq![Seq::<u8>::empty()] + kept, input, prefix),
{
    let opened = seq![Seq::<u8>::empty()] + kept;
    assert forall|i: int| 0 < i < opened.len() implies #[trigger] opened[i] != opened[i - 1] by {
        assert(opened[i] == kept[i - 1]);
        if i > 1 {
            assert(opened[i - 1] == kept[i - 2]);
        }
    }
    assert forall|i: int| 0 <= i < opened.len() implies #[trigger] opened[i].len() == 0
        || exists|j: int|
        0 <= j < input.len() && decoded_or_empty(#[trigger] input[j]) == Ok::<Seq<u8>, DecodeFailure>(
            prefix + opened[i],
        ) by {
        if i > 0 {
            assert(opened[i] == kept[i - 1]);
        }
    }
}

proof fn lemma_close_end(opened: Seq<Seq<u8>>, input: Seq<Seq<u8>>, prefix: Seq<u8>)
    requires
        no_repetitions(opened),
        come_from(opened, input, prefix),
        opened.len() > 0,
        opened.last().len() > 0,
    ensures
        no_repetitions(opened.push(Seq::empty())),
        come_from(opened.push(Seq::empty()), input, prefix),
{
    let closed = opened.push(Seq::empty());
    assert forall|i: int| 0 < i < closed.len() implies #[trigger] closed[i] != closed[i - 1] by {
        assert(closed[i - 1] == opened[i - 1]);
        if i < opened.len() {
            assert(closed[i] == opened[i]);
        }
    }
    assert forall|i: int| 0 <= i < closed.len() implies #[trigger] closed[i].len() == 0
        || exists|j: int|
        0 <= j < input.len() && decoded_or_empty(#[trigger] input[j]) == Ok::<Seq<u8>, DecodeFailure>(
            prefix + closed[i],
        ) by {
        if i < opened.len() {
            assert(closed[i] == opened[i]);
        }
    }
}

/// The buckets of a keyspace start and end with an empty key, repeat no key, and hold no other
/// key than those that lie in the keyspace.
pub proof fn law_keyspace_buckets_span_the_keyspace(
    keys: Seq<Seq<u8>>,
    keyspace_id: u32,
    key_mode: KeyMode,
)
    requires
        keyspace_buckets(keys, Keyspace::Enable { keyspace_id }, key_mode) is Ok,
    ensures
        ({
            let buckets = keyspace_buckets(keys, Keyspace::Enable { keyspace_id }, key_mode)->Ok_0;
            &&& buckets.len() > 0
            &&& buckets.first().len() == 0
            &&& buckets.last().len() == 0
            &&& no_repetitions(buckets)
            &&& come_from(buckets, keys, prefix_of(keyspace_id, key_mode))
        }),
{
    let prefix = prefix_of(keyspace_id, key_mode);
    let end = end_prefix_of(keyspace_id, key_mode);
    assert(keys =~= keys.skip(0));
    lemma_cut_buckets(keys, keys, prefix, end, Seq::empty());
    let kept = cut_buckets(keys, prefix, end, Seq::empty())->Ok_0;
    let opened = if kept.len() == 0 || kept.first().len() > 0 {
        lemma_open_end(kept, keys, prefix);
        seq![Seq::<u8>::empty()] + kept
    } else {
        kept
    };
    if opened.last().len() > 0 {
        lemma_close_end(opened, keys, prefix);
    }
}

} // verus!
