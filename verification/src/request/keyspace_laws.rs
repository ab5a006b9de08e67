//! What a keyspace makes of keys and ranges on their way to the cluster and back.

use core::ops::Range;
use vstd::prelude::*;

use crate::common::errors::{Error, Result};
use crate::common::text::decimal;
use crate::kv::bound::Bound;
use crate::kv::bound_range::{above, below, BoundRange};
use crate::kv::format::{says};
use crate::kv::key::Key;
use crate::kv::kvpair::KvPair;
use crate::kv::order::{lemma_lex_chain, lemma_lex_extension, lex_le, lex_lt};
use crate::proto::kvrpcpb::ApiVersion;
use crate::request::keyspace::{
    check_v2_key, decode_key, encode_key, end_prefix_of, keyspace_end_prefix, keyspace_prefix,
    law_encoded_keys_lie_in_their_keyspace, law_encoded_range_holds_the_encoded_keys,
    lemma_increment_four, parse_keyspace_id, prefix_of, EncodeKeyspace, KeyMode, Keyspace,
    KeyspaceDecodeError,
};
use crate::request::truncate::TruncateKeyspace;
use crate::request::truncate_epoch::lemma_inside_starts_with_prefix;
use crate::transaction::mutation::Mutation;

verus! {

/// The first four bytes, read as a number.
pub open spec fn first_four(bytes: Seq<u8>) -> int {
    bytes[0] * 16777216 + bytes[1] * 65536 + bytes[2] * 256 + bytes[3]
}

/// The bytes start with the letter of the mode, an `r` or an `x`, and the lower three bytes of the
/// id.
pub open spec fn starts_as_in(bytes: Seq<u8>, keyspace_id: u32, key_mode: KeyMode) -> bool {
    &&& bytes.len() >= 4
    &&& first_four(bytes) == (match key_mode {
        KeyMode::Raw => 114int,
        KeyMode::Txn => 120,
    }) * 16777216 + keyspace_id as int % 16777216
}

/// What is stored stands for the key: with a keyspace it is the key behind the prefix, and without
/// one the key itself.
pub open spec fn stands_for(
    stored: Seq<u8>,
    key: Seq<u8>,
    keyspace: Keyspace,
    key_mode: KeyMode,
) -> bool {
    match keyspace {
        Keyspace::Disable => stored == key,
        Keyspace::Enable { keyspace_id } => starts_as_in(stored, keyspace_id, key_mode)
            && stored.skip(4) == key,
    }
}

/// The key is what is left of the stored one: with a keyspace the first four bytes go, if there are
/// that many.
pub open spec fn is_left_of(stored: Seq<u8>, key: Seq<u8>, keyspace: Keyspace) -> bool {
    if keyspace is Disable || stored.len() < 4 {
        key == stored
    } else {
        key.len() == stored.len() - 4 && forall|i: int|
            0 <= i < key.len() ==> #[trigger] key[i] == stored[i + 4]
    }
}

/// A keyspace has an id of three bytes, and requests for one are of the second version.
pub proof fn law_which_ids_are_keyspaces(keyspace_id: u32, r: Result<Keyspace>)
    requires
        call_ensures(Keyspace::try_enable, (keyspace_id,), r),
    ensures
        keyspace_id < 16777216 <==> r is Ok,
        r is Ok ==> r->Ok_0 == (Keyspace::Enable { keyspace_id }),
        r is Err ==> says(
            r->Err_0,
            "invalid keyspace_id="@ + decimal(keyspace_id as nat) + " (max="@ + decimal(16777215)
                + ")"@,
        ),
{
}

/// Requests for a keyspace are of the second version, and all others of the first.
pub proof fn law_a_keyspace_needs_the_second_version(keyspace: &Keyspace, r: ApiVersion)
    requires
        call_ensures(Keyspace::api_version, (keyspace,), r),
    ensures
        r == ApiVersion::V2 <==> *keyspace is Enable,
        r == ApiVersion::V1 <==> *keyspace is Disable,
{
}

proof fn lemma_three_digits(n: int)
    requires
        0 <= n <= u32::MAX,
    ensures
        (n / 65536 % 256) * 65536 + (n / 256 % 256) * 256 + n % 256 == n % 16777216,
{
    assert((n / 65536 % 256) * 65536 + (n / 256 % 256) * 256 + n % 256 == n % 16777216)
        by (nonlinear_arith)
        requires
            0 <= n <= 4294967295,
    ;
}

pub(crate) proof fn lemma_prefix(keyspace_id: u32, key_mode: KeyMode)
    ensures
        prefix_of(keyspace_id, key_mode).len() == 4,
        starts_as_in(prefix_of(keyspace_id, key_mode), keyspace_id, key_mode),
        end_prefix_of(keyspace_id, key_mode).len() == 4,
        first_four(end_prefix_of(keyspace_id, key_mode)) == first_four(
            prefix_of(keyspace_id, key_mode),
        ) + 1,
{
    lemma_three_digits(keyspace_id as int);
    lemma_increment_four(prefix_of(keyspace_id, key_mode));
}

/// The prefix of a keyspace is four bytes, and where it ends these are larger by one, read as a
/// number.
pub proof fn law_the_prefix_holds_mode_and_id(
    keyspace_id: u32,
    key_mode: KeyMode,
    start: [u8; 4],
    end: [u8; 4],
)
    requires
        call_ensures(keyspace_prefix, (keyspace_id, key_mode), start),
        call_ensures(keyspace_end_prefix, (keyspace_id, key_mode), end),
    ensures
        starts_as_in(start@, keyspace_id, key_mode),
        first_four(end@) == first_four(start@) + 1,
{
    lemma_prefix(keyspace_id, key_mode);
}

pub(crate) proof fn lemma_stands_for(key: Seq<u8>, keyspace: Keyspace, key_mode: KeyMode)
    ensures
        stands_for(encode_key(key, keyspace, key_mode), key, keyspace, key_mode),
{
    if let Keyspace::Enable { keyspace_id } = keyspace {
        let prefix = prefix_of(keyspace_id, key_mode);
        lemma_prefix(keyspace_id, key_mode);
        assert((prefix + key).skip(4) =~= key);
        assert(first_four(prefix + key) == first_four(prefix));
    }
}

/// A key is stored behind the prefix of its keyspace.
pub proof fn law_a_key_is_stored_behind_its_prefix(
    key: Key,
    keyspace: Keyspace,
    key_mode: KeyMode,
    r: Key,
)
    requires
        call_ensures(<Key as EncodeKeyspace>::encode_keyspace, (key, keyspace, key_mode), r),
    ensures
        stands_for(r@, key@, keyspace, key_mode),
{
    lemma_stands_for(key@, keyspace, key_mode);
}

/// A pair keeps its value in a keyspace.
pub proof fn law_a_pair_is_stored_under_its_key(
    pair: KvPair,
    keyspace: Keyspace,
    key_mode: KeyMode,
    r: KvPair,
)
    requires
        call_ensures(<KvPair as EncodeKeyspace>::encode_keyspace, (pair, keyspace, key_mode), r),
    ensures
        stands_for(r.key@, pair.key@, keyspace, key_mode),
        r.value == pair.value,
{
    lemma_stands_for(pair.key@, keyspace, key_mode);
}

/// A mutation stays one of its kind, with its value, in a keyspace.
pub proof fn law_a_mutation_is_made_of_the_stored_key(
    mutation: Mutation,
    keyspace: Keyspace,
    key_mode: KeyMode,
    r: Mutation,
)
    requires
        call_ensures(
            <Mutation as EncodeKeyspace>::encode_keyspace,
            (mutation, keyspace, key_mode),
            r,
        ),
    ensures
        mutation matches Mutation::Put(key, value) ==> (r matches Mutation::Put(stored, kept)
            && stands_for(stored@, key@, keyspace, key_mode) && kept == value),
        mutation matches Mutation::Delete(key) ==> (r matches Mutation::Delete(stored)
            && stands_for(stored@, key@, keyspace, key_mode)),
{
    match mutation {
        Mutation::Put(key, _) => lemma_stands_for(key@, keyspace, key_mode),
        Mutation::Delete(key) => lemma_stands_for(key@, keyspace, key_mode),
    }
}

/// The upper end says nothing: there is none, or it is the empty key.
pub open spec fn is_open(to: Bound<Key>) -> bool {
    match to {
        Bound::Included(key) => key@.len() == 0,
        Bound::Excluded(key) => key@.len() == 0,
        Bound::Unbounded => true,
    }
}

proof fn lemma_inside(stored: Seq<u8>, keyspace_id: u32, key_mode: KeyMode)
    requires
        stored.len() >= 4,
        lex_le(prefix_of(keyspace_id, key_mode), stored),
        lex_lt(stored, end_prefix_of(keyspace_id, key_mode)),
    ensures
        starts_as_in(stored, keyspace_id, key_mode),
        stored == encode_key(stored.skip(4), Keyspace::Enable { keyspace_id }, key_mode),
{
    lemma_inside_starts_with_prefix(stored, keyspace_id, key_mode);
    lemma_stands_for(stored.skip(4), Keyspace::Enable { keyspace_id }, key_mode);
}

/// A range in a keyspace holds what stands for a key of the range, and nothing that stands for a
/// key of another keyspace.
pub proof fn law_a_range_stays_in_its_keyspace(
    range: BoundRange,
    keyspace_id: u32,
    key_mode: KeyMode,
    r: BoundRange,
    stored: Seq<u8>,
)
    requires
        call_ensures(
            <BoundRange as EncodeKeyspace>::encode_keyspace,
            (range, Keyspace::Enable { keyspace_id }, key_mode),
            r,
        ),
        stored.len() >= 4,
    ensures
        r.has(stored) <==> {
            &&& starts_as_in(stored, keyspace_id, key_mode)
            &&& above(range.from.bytes(), stored.skip(4))
            &&& is_open(range.to) || below(range.to.bytes(), stored.skip(4))
        },
{
    let keyspace = Keyspace::Enable { keyspace_id };
    let key = stored.skip(4);
    let prefix = prefix_of(keyspace_id, key_mode);
    let end = end_prefix_of(keyspace_id, key_mode);
    lemma_prefix(keyspace_id, key_mode);
    law_encoded_range_holds_the_encoded_keys(range, r, key, keyspace_id, key_mode);
    if is_open(range.to) {
        match range.to.bytes() {
            Bound::Included(to) => assert(to =~= Seq::<u8>::empty()),
            Bound::Excluded(to) => assert(to =~= Seq::<u8>::empty()),
            Bound::Unbounded => {},
        }
    }
    if starts_as_in(stored, keyspace_id, key_mode) {
        lemma_same_four(stored, prefix);
        assert(stored =~= prefix + key);
    } else if r.has(stored) {
        assert(lex_le(prefix, stored)) by {
            match range.from.bytes() {
                Bound::Included(from) => {
                    lemma_lex_extension(prefix, from);
                    lemma_lex_chain(prefix, prefix + from, stored);
                },
                Bound::Excluded(from) => {
                    lemma_lex_extension(prefix, from);
                    lemma_lex_chain(prefix, prefix + from, stored);
                },
                Bound::Unbounded => {
                    assert(prefix + Seq::<u8>::empty() =~= prefix);
                },
            }
        }
        assert(lex_lt(stored, end)) by {
            match range.to.bytes() {
                Bound::Included(to) => {
                    law_encoded_keys_lie_in_their_keyspace(to, keyspace_id, key_mode);
                    lemma_lex_chain(stored, prefix + to, end);
                },
                Bound::Excluded(to) => {
                    law_encoded_keys_lie_in_their_keyspace(to, keyspace_id, key_mode);
                    lemma_lex_chain(stored, prefix + to, end);
                },
                Bound::Unbounded => {},
            }
        }
        lemma_inside(stored, keyspace_id, key_mode);
    }
}

pub(crate) proof fn lemma_same_four(a: Seq<u8>, b: Seq<u8>)
    requires
        a.len() >= 4,
        b.len() >= 4,
        first_four(a) == first_four(b),
    ensures
        a[0] == b[0],
        a[1] == b[1],
        a[2] == b[2],
        a[3] == b[3],
{
}

/// Without a keyspace a range keeps its ends, where the empty key stands for none.
pub proof fn law_a_range_is_kept_without_a_keyspace(range: BoundRange, key_mode: KeyMode, r: BoundRange)
    requires
        call_ensures(
            <BoundRange as EncodeKeyspace>::encode_keyspace,
            (range, Keyspace::Disable, key_mode),
            r,
        ),
    ensures
        range.from is Unbounded ==> r.from.bytes() == Bound::Included(Seq::<u8>::empty()),
        range.from !is Unbounded ==> r.from.bytes() == range.from.bytes(),
        is_open(range.to) ==> r.to.bytes() == Bound::Excluded(Seq::<u8>::empty()),
        !is_open(range.to) ==> r.to.bytes() == range.to.bytes(),
{
}

/// A stored key is one of a keyspace if it is long enough for a prefix and starts with the letter
/// of a mode.
pub open spec fn is_v2_key(stored: Seq<u8>) -> bool {
    stored.len() >= 4 && (stored[0] == 114 || stored[0] == 120)
}

/// The error tells what is wrong with the stored key.
pub open spec fn tells_fault(error: KeyspaceDecodeError, stored: Seq<u8>) -> bool {
    match error {
        KeyspaceDecodeError::TooShort => stored.len() < 4,
        KeyspaceDecodeError::UnknownModePrefix { prefix } => stored.len() >= 4 && prefix
            == stored[0] && prefix != 114 && prefix != 120,
    }
}

/// The id of a keyspace is read from the three bytes behind the letter of the mode.
pub proof fn law_the_id_is_read_from_the_prefix(
    stored: &[u8],
    checked: core::result::Result<(), KeyspaceDecodeError>,
    r: core::result::Result<u32, KeyspaceDecodeError>,
)
    requires
        call_ensures(check_v2_key, (stored,), checked),
        call_ensures(parse_keyspace_id, (stored,), r),
    ensures
        checked is Ok <==> is_v2_key(stored@),
        checked is Err ==> tells_fault(checked->Err_0, stored@),
        r is Ok <==> is_v2_key(stored@),
        r is Ok ==> r->Ok_0 == first_four(stored@) - stored@[0] * 16777216,
        r is Err ==> tells_fault(r->Err_0, stored@),
{
}

/// A key of the second version is taken apart behind its fourth byte, and others are left whole.
pub proof fn law_a_stored_key_is_taken_apart<'a>(
    stored: &'a [u8],
    version: ApiVersion,
    r: core::result::Result<(&'a [u8], &'a [u8]), KeyspaceDecodeError>,
)
    requires
        call_ensures(decode_key, (stored, version), r),
    ensures
        r is Ok <==> version != ApiVersion::V2 || is_v2_key(stored@),
        r is Ok ==> r->Ok_0.0@ + r->Ok_0.1@ == stored@,
        r is Ok ==> r->Ok_0.0@.len() == (if version == ApiVersion::V2 {
            4int
        } else {
            0
        }),
        r is Err ==> tells_fault(r->Err_0, stored@),
{
    if version == ApiVersion::V2 {
        assert(stored@.len() >= 4 ==> stored@.take(4) + stored@.skip(4) =~= stored@);
    } else {
        assert(Seq::<u8>::empty() + stored@ =~= stored@);
    }
}

/// Keys lose their prefix on their way back, in pairs and ranges as well.
pub proof fn law_keys_come_back_without_their_prefix(
    keyspace: Keyspace,
    key: Key,
    bare_key: Key,
    pair: KvPair,
    bare_pair: KvPair,
    range: Range<Key>,
    bare_range: Range<Key>,
)
    requires
        call_ensures(<Key as TruncateKeyspace>::truncate_keyspace, (key, keyspace), bare_key),
        call_ensures(<KvPair as TruncateKeyspace>::truncate_keyspace, (pair, keyspace), bare_pair),
        call_ensures(
            <Range<Key> as TruncateKeyspace>::truncate_keyspace,
            (range, keyspace),
            bare_range,
        ),
    ensures
        is_left_of(key@, bare_key@, keyspace),
        is_left_of(pair.key@, bare_pair.key@, keyspace),
        bare_pair.value == pair.value,
        is_left_of(range.start@, bare_range.start@, keyspace),
        is_left_of(range.end@, bare_range.end@, keyspace),
{
}

/// Every pair and every range of many comes back without its prefix, in order.
pub proof fn law_all_keys_come_back_without_their_prefix(
    keyspace: Keyspace,
    pairs: Vec<KvPair>,
    bare_pairs: Vec<KvPair>,
    ranges: Vec<Range<Key>>,
    bare_ranges: Vec<Range<Key>>,
)
    requires
        call_ensures(
            <Vec<KvPair> as TruncateKeyspace>::truncate_keyspace,
            (pairs, keyspace),
            bare_pairs,
        ),
        call_ensures(
            <Vec<Range<Key>> as TruncateKeyspace>::truncate_keyspace,
            (ranges, keyspace),
            bare_ranges,
        ),
    ensures
        bare_pairs@.len() == pairs@.len(),
        forall|i: int|
            0 <= i < pairs@.len() ==> {
                &&& is_left_of((#[trigger] pairs@[i]).key@, bare_pairs@[i].key@, keyspace)
                &&& bare_pairs@[i].value == pairs@[i].value
            },
        bare_ranges@.len() == ranges@.len(),
        forall|i: int|
            0 <= i < ranges@.len() ==> {
                &&& is_left_of((#[trigger] ranges@[i]).start@, bare_ranges@[i].start@, keyspace)
                &&& is_left_of(ranges@[i].end@, bare_ranges@[i].end@, keyspace)
            },
{
}

/// What is stored for a key is the key again once its prefix is gone.
pub proof fn law_a_stored_key_comes_back(
    stored: Seq<u8>,
    key: Seq<u8>,
    bare: Seq<u8>,
    keyspace: Keyspace,
    key_mode: KeyMode,
)
    requires
        stands_for(stored, key, keyspace, key_mode),
        is_left_of(stored, bare, keyspace),
    ensures
        bare == key,
{
    if keyspace is Enable {
        assert forall|i: int| 0 <= i < bare.len() implies bare[i] == key[i] by {
            assert(stored.skip(4)[i] == stored[i + 4]);
        }
        assert(bare =~= key);
    }
}

} // verus!
