//! Keyspaces: the prefixes that keep the keys of different users of one cluster apart.

use vstd::arithmetic::div_mod::lemma_fundamental_div_mod_converse;
use vstd::prelude::*;

use crate::common::errors::{Error, Result};
use crate::common::text::{decimal, push_decimal, with_decimal};
use crate::kv::bound::Bound;
use crate::kv::bound_range::{above, below, BoundRange};
use crate::kv::key::{increment, law_next_prefix_key_bounds_the_prefix, Key};
use crate::kv::kvpair::KvPair;
use crate::kv::order::{lemma_lex_common_prefix, lex_le, lex_lt};
use crate::proto::kvrpcpb::ApiVersion;
use crate::transaction::mutation::Mutation;

verus! {

/// The first byte of a raw key.
pub const RAW_KEY_PREFIX: u8 = 114;

/// The first byte of a transactional key.
pub const TXN_KEY_PREFIX: u8 = 120;

/// The number of bytes in the prefix of a keyspace.
pub const KEYSPACE_PREFIX_LEN: usize = 4;

/// The largest id of a keyspace.
pub const MAX_KEYSPACE_ID: u32 = 16777215;

/// Whether, and for which keyspace, keys are encoded.
#[derive(Debug, Clone, Copy, PartialEq, Eq, Hash, Structural)]
pub enum Keyspace {
    Disable,
    /// Enable APIv2 keyspace encoding.
    ///
    /// Note: TiKV keyspace IDs are 24-bit; values above `2^24-1` are invalid.
    Enable { keyspace_id: u32 },
}

/// Whether keys are used raw or by transactions.
#[derive(Debug, Clone, Copy, PartialEq, Eq, Hash, Structural)]
pub enum KeyMode {
    Raw,
    Txn,
}

/// The prefixes of the keys of APIv2, in order.
pub const CODEC_V2_PREFIXES: [[u8; 1]; 2] = [[RAW_KEY_PREFIX], [TXN_KEY_PREFIX]];

/// The prefixes that keys of APIv1 may not have, in order.
pub const CODEC_V1_EXCLUDE_PREFIXES: [[u8; 1]; 2] = CODEC_V2_PREFIXES;

impl KeyMode {
    /// The first byte of the keys of the mode.
    pub open spec fn byte(self) -> u8 {
        match self {
            KeyMode::Raw => RAW_KEY_PREFIX,
            KeyMode::Txn => TXN_KEY_PREFIX,
        }
    }
}

impl Keyspace {
    /// The API version of requests for the keyspace.
    pub open spec fn spec_api_version(self) -> ApiVersion {
        match self {
            Keyspace::Disable => ApiVersion::V1,
            Keyspace::Enable { .. } => ApiVersion::V2,
        }
    }

    /// The API version of requests for the keyspace.
    pub fn api_version(&self) -> (r: ApiVersion)
        ensures
            r == self.spec_api_version(),
    {
        match self {
            Keyspace::Disable => ApiVersion::V1,
            Keyspace::Enable { .. } => ApiVersion::V2,
        }
    }

    /// The keyspace with the given id, if that is one.
    pub fn try_enable(keyspace_id: u32) -> (r: Result<Self>)
        ensures
            keyspace_id <= MAX_KEYSPACE_ID ==> r == Ok::<Keyspace, Error>(
                Keyspace::Enable { keyspace_id },
            ),
            keyspace_id > MAX_KEYSPACE_ID ==> r is Err && r->Err_0.is_internal(
                "invalid keyspace_id="@ + decimal(keyspace_id as nat) + " (max="@ + decimal(
                    MAX_KEYSPACE_ID as nat,
                ) + ")"@,
            ),
    {
        if keyspace_id > MAX_KEYSPACE_ID {
            let mut message = with_decimal("invalid keyspace_id=", keyspace_id as u64);
            message.append(" (max=");
            push_decimal(&mut message, MAX_KEYSPACE_ID as u64);
            message.append(")");
            return Err(Error::InternalError { message });
        }
        Ok(Keyspace::Enable { keyspace_id })
    }
}

/// The prefix of the keys of a keyspace: the mode, and the id in three bytes.
pub open spec fn prefix_of(keyspace_id: u32, key_mode: KeyMode) -> Seq<u8> {
    seq![
        key_mode.byte(),
        (keyspace_id as int / 65536 % 256) as u8,
        (keyspace_id as int / 256 % 256) as u8,
        (keyspace_id as int % 256) as u8,
    ]
}

/// The prefix at which the keys of a keyspace end.
pub open spec fn end_prefix_of(keyspace_id: u32, key_mode: KeyMode) -> Seq<u8> {
    increment(prefix_of(keyspace_id, key_mode))->0
}

/// A key as it is stored in its keyspace.
pub open spec fn encode_key(key: Seq<u8>, keyspace: Keyspace, key_mode: KeyMode) -> Seq<u8> {
    match keyspace {
        Keyspace::Disable => key,
        Keyspace::Enable { keyspace_id } => prefix_of(keyspace_id, key_mode) + key,
    }
}

/// A key without the prefix of its keyspace. A key too short to hold a prefix stays as it is.
pub open spec fn truncate_key(key: Seq<u8>, keyspace: Keyspace) -> Seq<u8> {
    match keyspace {
        Keyspace::Disable => key,
        Keyspace::Enable { .. } => if key.len() >= KEYSPACE_PREFIX_LEN {
            key.skip(KEYSPACE_PREFIX_LEN as int)
        } else {
            key
        },
    }
}

/// The prefix of the keys of a keyspace.
pub fn keyspace_prefix(keyspace_id: u32, key_mode: KeyMode) -> (r: [u8; KEYSPACE_PREFIX_LEN])
    ensures
        r@ == prefix_of(keyspace_id, key_mode),
{
    let mode = match key_mode {
        KeyMode::Raw => RAW_KEY_PREFIX,
        KeyMode::Txn => TXN_KEY_PREFIX,
    };
    let r = [
        mode,
        (keyspace_id / 65536 % 256) as u8,
        (keyspace_id / 256 % 256) as u8,
        (keyspace_id % 256) as u8,
    ];
    assert(r@ =~= prefix_of(keyspace_id, key_mode));
    r
}

/// The increment of four bytes.
pub proof fn lemma_increment_four(s: Seq<u8>)
    requires
        s.len() == 4,
        s[0] < 255,
    ensures
        increment(s) == Some(
            if s[3] < 255 {
                seq![s[0], s[1], s[2], (s[3] + 1) as u8]
            } else if s[2] < 255 {
                seq![s[0], s[1], (s[2] + 1) as u8, 0u8]
            } else if s[1] < 255 {
                seq![s[0], (s[1] + 1) as u8, 0u8, 0u8]
            } else {
                seq![(s[0] + 1) as u8, 0u8, 0u8, 0u8]
            },
        ),
{
    let s3 = s.drop_last();
    let s2 = s3.drop_last();
    let s1 = s2.drop_last();
    if s[3] < 255 {
        assert(s3.push((s[3] + 1) as u8) =~= seq![s[0], s[1], s[2], (s[3] + 1) as u8]);
    } else if s[2] < 255 {
        assert(increment(s3) == Some(s2.push((s[2] + 1) as u8)));
        assert(s2.push((s[2] + 1) as u8).push(0) =~= seq![s[0], s[1], (s[2] + 1) as u8, 0u8]);
    } else if s[1] < 255 {
        assert(increment(s2) == Some(s1.push((s[1] + 1) as u8)));
        assert(increment(s3) == Some(s1.push((s[1] + 1) as u8).push(0)));
        assert(s1.push((s[1] + 1) as u8).push(0).push(0) =~= seq![
            s[0],
            (s[1] + 1) as u8,
            0u8,
            0u8,
        ]);
    } else {
        assert(increment(s1) == Some(s1.drop_last().push((s[0] + 1) as u8)));
        assert(increment(s2) == Some(s1.drop_last().push((s[0] + 1) as u8).push(0)));
        assert(increment(s3) == Some(s1.drop_last().push((s[0] + 1) as u8).push(0).push(0)));
        assert(s1.drop_last().push((s[0] + 1) as u8).push(0).push(0).push(0) =~= seq![
            (s[0] + 1) as u8,
            0u8,
            0u8,
            0u8,
        ]);
    }
}

/// The prefix at which the keys of a keyspace end.
pub fn keyspace_end_prefix(keyspace_id: u32, key_mode: KeyMode) -> (r: [u8; KEYSPACE_PREFIX_LEN])
    ensures
        increment(prefix_of(keyspace_id, key_mode)) == Some(r@),
        r@ == end_prefix_of(keyspace_id, key_mode),
{
    let p = keyspace_prefix(keyspace_id, key_mode);
    proof {
        lemma_increment_four(p@);
    }
    let r = if p[3] < 255 {
        [p[0], p[1], p[2], p[3] + 1]
    } else if p[2] < 255 {
        [p[0], p[1], p[2] + 1, 0]
    } else if p[1] < 255 {
        [p[0], p[1] + 1, 0, 0]
    } else {
        [p[0] + 1, 0, 0, 0]
    };
    assert(r@ =~= increment(p@)->0);
    r
}

/// Put a prefix before the bytes.
pub fn prepend_bytes<const N: usize>(vec: &mut Vec<u8>, prefix: &[u8; N])
    ensures
        final(vec)@ == prefix@ + old(vec)@,
{
    let ghost before = vec@;
    let mut out: Vec<u8> = Vec::new();
    let mut i: usize = 0;
    while i < N
        invariant
            i <= N,
            out@ == prefix@.take(i as int),
        decreases N - i,
    {
        out.push(prefix[i]);
        assert(prefix@.take(i + 1) =~= prefix@.take(i as int).push(prefix@[i as int]));
        i = i + 1;
    }
    assert(prefix@.take(N as int) =~= prefix@);
    out.append(vec);
    *vec = out;
}

/// Drop the first bytes, if there are that many.
pub fn pretruncate_bytes<const N: usize>(vec: &mut Vec<u8>)
    ensures
        final(vec)@ == (if old(vec)@.len() >= N {
            old(vec)@.skip(N as int)
        } else {
            old(vec)@
        }),
{
    if vec.len() < N {
        return;
    }
    let ghost before = vec@;
    let rest = vec.split_off(N);
    assert(rest@ =~= before.skip(N as int));
    *vec = rest;
}

/// What can be put into a keyspace.
pub trait EncodeKeyspace: Sized {
    /// `result` is what the keyspace makes of `self`.
    spec fn encodes_to(self, keyspace: Keyspace, key_mode: KeyMode, result: Self) -> bool;

    /// Put the keys into the keyspace.
    fn encode_keyspace(self, keyspace: Keyspace, key_mode: KeyMode) -> (r: Self)
        ensures
            self.encodes_to(keyspace, key_mode, r),
    ;
}

impl EncodeKeyspace for Key {
    open spec fn encodes_to(self, keyspace: Keyspace, key_mode: KeyMode, result: Self) -> bool {
        result@ == encode_key(self@, keyspace, key_mode)
    }

    fn encode_keyspace(self, keyspace: Keyspace, key_mode: KeyMode) -> (r: Self) {
        let prefix = match keyspace {
            Keyspace::Disable => {
                return self;
            },
            Keyspace::Enable { keyspace_id } => keyspace_prefix(keyspace_id, key_mode),
        };
        let mut bytes = self.0;
        prepend_bytes(&mut bytes, &prefix);
        Key(bytes)
    }
}

impl EncodeKeyspace for KvPair {
    open spec fn encodes_to(self, keyspace: Keyspace, key_mode: KeyMode, result: Self) -> bool {
        result.key@ == encode_key(self.key@, keyspace, key_mode) && result.value == self.value
    }

    fn encode_keyspace(self, keyspace: Keyspace, key_mode: KeyMode) -> (r: Self) {
        KvPair { key: self.key.encode_keyspace(keyspace, key_mode), value: self.value }
    }
}

/// The lower end of a range in a keyspace. No end stands for the start of the keyspace.
pub open spec fn encode_from(
    from: Bound<Seq<u8>>,
    keyspace: Keyspace,
    key_mode: KeyMode,
) -> Bound<Seq<u8>> {
    match from {
        Bound::Included(key) => Bound::Included(encode_key(key, keyspace, key_mode)),
        Bound::Excluded(key) => Bound::Excluded(encode_key(key, keyspace, key_mode)),
        Bound::Unbounded => Bound::Included(encode_key(Seq::empty(), keyspace, key_mode)),
    }
}

/// The upper end of a range in a keyspace. No end, or an empty key, stands for the end of the
/// keyspace.
pub open spec fn encode_to(
    to: Bound<Seq<u8>>,
    keyspace: Keyspace,
    key_mode: KeyMode,
) -> Bound<Seq<u8>> {
    let end = match keyspace {
        Keyspace::Disable => Seq::empty(),
        Keyspace::Enable { keyspace_id } => end_prefix_of(keyspace_id, key_mode),
    };
    match to {
        Bound::Included(key) => if key.len() > 0 {
            Bound::Included(encode_key(key, keyspace, key_mode))
        } else {
            Bound::Excluded(end)
        },
        Bound::Excluded(key) => if key.len() > 0 {
            Bound::Excluded(encode_key(key, keyspace, key_mode))
        } else {
            Bound::Excluded(end)
        },
        Bound::Unbounded => Bound::Excluded(end),
    }
}

fn end_bound(keyspace: Keyspace, key_mode: KeyMode) -> (r: Bound<Key>)
    ensures
        r.bytes() == encode_to(Bound::Unbounded, keyspace, key_mode),
{
    let mut key: Vec<u8> = Vec::new();
    if let Keyspace::Enable { keyspace_id } = keyspace {
        let prefix = keyspace_end_prefix(keyspace_id, key_mode);
        prepend_bytes(&mut key, &prefix);
        assert(key@ =~= prefix@);
    }
    Bound::Excluded(Key(key))
}

impl EncodeKeyspace for BoundRange {
    open spec fn encodes_to(self, keyspace: Keyspace, key_mode: KeyMode, result: Self) -> bool {
        &&& result.from.bytes() == encode_from(self.from.bytes(), keyspace, key_mode)
        &&& result.to.bytes() == encode_to(self.to.bytes(), keyspace, key_mode)
    }

    fn encode_keyspace(self, keyspace: Keyspace, key_mode: KeyMode) -> (r: Self) {
        let from = match self.from {
            Bound::Included(key) => Bound::Included(key.encode_keyspace(keyspace, key_mode)),
            Bound::Excluded(key) => Bound::Excluded(key.encode_keyspace(keyspace, key_mode)),
            Bound::Unbounded => {
                let key = Key::empty();
                Bound::Included(key.encode_keyspace(keyspace, key_mode))
            },
        };
        let to = match self.to {
            Bound::Included(key) => if !key.is_empty() {
                Bound::Included(key.encode_keyspace(keyspace, key_mode))
            } else {
                end_bound(keyspace, key_mode)
            },
            Bound::Excluded(key) => if !key.is_empty() {
                Bound::Excluded(key.encode_keyspace(keyspace, key_mode))
            } else {
                end_bound(keyspace, key_mode)
            },
            Bound::Unbounded => end_bound(keyspace, key_mode),
        };
        BoundRange { from, to }
    }
}

impl EncodeKeyspace for Mutation {
    open spec fn encodes_to(self, keyspace: Keyspace, key_mode: KeyMode, result: Self) -> bool {
        match self {
            Mutation::Put(key, value) => {
                &&& result matches Mutation::Put(new_key, new_value)
                &&& new_key@ == encode_key(key@, keyspace, key_mode)
                &&& new_value == value
            },
            Mutation::Delete(key) => {
                &&& result matches Mutation::Delete(new_key)
                &&& new_key@ == encode_key(key@, keyspace, key_mode)
            },
        }
    }

    fn encode_keyspace(self, keyspace: Keyspace, key_mode: KeyMode) -> (r: Self) {
        match self {
            Mutation::Put(key, value) => Mutation::Put(
                key.encode_keyspace(keyspace, key_mode),
                value,
            ),
            Mutation::Delete(key) => Mutation::Delete(key.encode_keyspace(keyspace, key_mode)),
        }
    }
}

/// Why bytes are no key of a keyspace.
#[derive(Clone, Copy, Debug, Eq, PartialEq, Structural)]
pub enum KeyspaceDecodeError {
    /// The key is too short to hold a prefix.
    TooShort,
    /// The first byte is that of no mode.
    UnknownModePrefix { prefix: u8 },
}

/// Whether the bytes are a key of a keyspace.
pub open spec fn v2_key_error(encoded: Seq<u8>) -> Option<KeyspaceDecodeError> {
    if encoded.len() < KEYSPACE_PREFIX_LEN {
        Some(KeyspaceDecodeError::TooShort)
    } else if encoded[0] == RAW_KEY_PREFIX || encoded[0] == TXN_KEY_PREFIX {
        None
    } else {
        Some(KeyspaceDecodeError::UnknownModePrefix { prefix: encoded[0] })
    }
}

/// The keyspace id in the prefix of a key.
pub open spec fn keyspace_id_of(encoded: Seq<u8>) -> u32 {
    (encoded[1] * 65536 + encoded[2] * 256 + encoded[3]) as u32
}

/// Check that the bytes are a key of a keyspace.
pub fn check_v2_key(encoded: &[u8]) -> (r: core::result::Result<(), KeyspaceDecodeError>)
    ensures
        match v2_key_error(encoded@) {
            Some(error) => r == Err::<(), KeyspaceDecodeError>(error),
            None => r is Ok,
        },
{
    if encoded.len() < KEYSPACE_PREFIX_LEN {
        return Err(KeyspaceDecodeError::TooShort);
    }
    let prefix: u8 = encoded[0];
    if prefix == RAW_KEY_PREFIX || prefix == TXN_KEY_PREFIX {
        Ok(())
    } else {
        Err(KeyspaceDecodeError::UnknownModePrefix { prefix })
    }
}

/// The id of the keyspace that a key belongs to.
pub fn parse_keyspace_id(encoded: &[u8]) -> (r: core::result::Result<u32, KeyspaceDecodeError>)
    ensures
        match v2_key_error(encoded@) {
            Some(error) => r == Err::<u32, KeyspaceDecodeError>(error),
            None => r == Ok::<u32, KeyspaceDecodeError>(keyspace_id_of(encoded@)),
        },
{
    match check_v2_key(encoded) {
        Err(error) => Err(error),
        Ok(()) => Ok(
            encoded[1] as u32 * 65536 + encoded[2] as u32 * 256 + encoded[3] as u32,
        ),
    }
}

/// The prefix of an encoded key, and the key without it.
pub fn decode_key(encoded: &[u8], version: ApiVersion) -> (r: core::result::Result<
    (&[u8], &[u8]),
    KeyspaceDecodeError,
>)
    ensures
        version != ApiVersion::V2 ==> r is Ok && r->Ok_0.0@ == Seq::<u8>::empty() && r->Ok_0.1@
            == encoded@,
        version == ApiVersion::V2 ==> (match v2_key_error(encoded@) {
            Some(error) => r == Err::<(&[u8], &[u8]), KeyspaceDecodeError>(error),
            None => r is Ok && r->Ok_0.0@ == encoded@.take(4) && r->Ok_0.1@ == encoded@.skip(4),
        }),
{
    match version {
        ApiVersion::V1 | ApiVersion::V1ttl => {
            let parts = encoded.split_at(0);
            assert(parts.0@ =~= Seq::<u8>::empty());
            assert(parts.1@ =~= encoded@);
            Ok(parts)
        },
        ApiVersion::V2 => match check_v2_key(encoded) {
            Err(error) => Err(error),
            Ok(()) => {
                let parts = encoded.split_at(KEYSPACE_PREFIX_LEN);
                assert(parts.0@ =~= encoded@.take(4));
                assert(parts.1@ =~= encoded@.skip(4));
                Ok(parts)
            },
        },
    }
}

/// Truncating an encoded key gives the key back.
pub proof fn law_truncate_inverts_encode(key: Seq<u8>, keyspace: Keyspace, key_mode: KeyMode)
    ensures
        truncate_key(encode_key(key, keyspace, key_mode), keyspace) == key,
{
    if let Keyspace::Enable { keyspace_id } = keyspace {
        assert((prefix_of(keyspace_id, key_mode) + key).skip(4) =~= key);
    }
}

/// Keys keep their order in a keyspace, and different keys stay different.
pub proof fn law_encode_preserves_key_order(
    a: Seq<u8>,
    b: Seq<u8>,
    keyspace: Keyspace,
    key_mode: KeyMode,
)
    ensures
        lex_lt(encode_key(a, keyspace, key_mode), encode_key(b, keyspace, key_mode)) == lex_lt(
            a,
            b,
        ),
        encode_key(a, keyspace, key_mode) == encode_key(b, keyspace, key_mode) <==> a == b,
{
    law_truncate_inverts_encode(a, keyspace, key_mode);
    law_truncate_inverts_encode(b, keyspace, key_mode);
    if let Keyspace::Enable { keyspace_id } = keyspace {
        lemma_lex_common_prefix(prefix_of(keyspace_id, key_mode), a, b);
    }
}

/// The keys of a keyspace lie between its prefix and its end.
pub proof fn law_encoded_keys_lie_in_their_keyspace(
    key: Seq<u8>,
    keyspace_id: u32,
    key_mode: KeyMode,
)
    ensures
        lex_le(
            prefix_of(keyspace_id, key_mode),
            encode_key(key, Keyspace::Enable { keyspace_id }, key_mode),
        ),
        lex_lt(
            encode_key(key, Keyspace::Enable { keyspace_id }, key_mode),
            end_prefix_of(keyspace_id, key_mode),
        ),
{
    let prefix = prefix_of(keyspace_id, key_mode);
    lemma_increment_four(prefix);
    assert(prefix.is_prefix_of(prefix + key)) by {
        assert((prefix + key).subrange(0, 4) =~= prefix);
    }
    law_next_prefix_key_bounds_the_prefix(prefix, prefix + key);
}

proof fn lemma_split_digits(k: int)
    requires
        0 <= k <= MAX_KEYSPACE_ID,
    ensures
        k == (k / 65536) * 65536 + (k / 256 % 256) * 256 + k % 256,
        0 <= k / 65536 < 256,
{
}

proof fn lemma_join_digits(n: int, a: int, b: int, c: int)
    requires
        0 <= a < 256,
        0 <= b < 256,
        0 <= c < 256,
        n == a * 65536 + b * 256 + c,
    ensures
        n / 65536 % 256 == a,
        n / 256 % 256 == b,
        n % 256 == c,
{
    lemma_fundamental_div_mod_converse(n, 256, a * 256 + b, c);
    lemma_fundamental_div_mod_converse(a * 256 + b, 256, a, b);
    lemma_fundamental_div_mod_converse(n, 65536, a, b * 256 + c);
    lemma_fundamental_div_mod_converse(a, 256, 0, a);
}

/// Where one keyspace ends the next one starts, so that different keyspaces share no key.
pub proof fn law_keyspaces_are_adjacent(keyspace_id: u32, key_mode: KeyMode)
    requires
        keyspace_id < MAX_KEYSPACE_ID,
    ensures
        end_prefix_of(keyspace_id, key_mode) == prefix_of((keyspace_id + 1) as u32, key_mode),
{
    let p = prefix_of(keyspace_id, key_mode);
    let k = keyspace_id as int;
    let (a, b, c) = (k / 65536, k / 256 % 256, k % 256);
    lemma_increment_four(p);
    lemma_split_digits(k);
    if c < 255 {
        lemma_join_digits(k + 1, a, b, c + 1);
    } else if b < 255 {
        lemma_join_digits(k + 1, a, b + 1, 0);
    } else {
        lemma_join_digits(k + 1, a + 1, 0, 0);
    }
    lemma_join_digits(k, a, b, c);
    assert(increment(p)->0 =~= prefix_of((keyspace_id + 1) as u32, key_mode));
}

/// The id of a keyspace can be read back from its keys.
pub proof fn law_keyspace_id_is_in_the_prefix(key: Seq<u8>, keyspace_id: u32, key_mode: KeyMode)
    requires
        keyspace_id <= MAX_KEYSPACE_ID,
    ensures
        v2_key_error(encode_key(key, Keyspace::Enable { keyspace_id }, key_mode)) is None,
        keyspace_id_of(encode_key(key, Keyspace::Enable { keyspace_id }, key_mode)) == keyspace_id,
{
}

/// A range in a keyspace holds exactly the encoded keys of the range, where an upper end that is
/// an empty key counts as no end.
pub proof fn law_encoded_range_holds_the_encoded_keys(
    range: BoundRange,
    result: BoundRange,
    key: Seq<u8>,
    keyspace_id: u32,
    key_mode: KeyMode,
)
    requires
        range.encodes_to(Keyspace::Enable { keyspace_id }, key_mode, result),
    ensures
        result.has(encode_key(key, Keyspace::Enable { keyspace_id }, key_mode)) <==> above(
            range.from.bytes(),
            key,
        ) && (below(range.to.bytes(), key) || range.to.bytes() == Bound::Included(Seq::<u8>::empty())
            || range.to.bytes() == Bound::Excluded(Seq::<u8>::empty())),
{
    let keyspace = Keyspace::Enable { keyspace_id };
    let prefix = prefix_of(keyspace_id, key_mode);
    law_encoded_keys_lie_in_their_keyspace(key, keyspace_id, key_mode);
    match range.from.bytes() {
        Bound::Included(start) => {
            law_encode_preserves_key_order(start, key, keyspace, key_mode);
        },
        Bound::Excluded(start) => {
            law_encode_preserves_key_order(start, key, keyspace, key_mode);
        },
        Bound::Unbounded => {
            assert(prefix + Seq::<u8>::empty() =~= prefix);
        },
    }
    match range.to.bytes() {
        Bound::Included(end) => {
            law_encode_preserves_key_order(key, end, keyspace, key_mode);
            if end.len() == 0 {
                assert(end =~= Seq::<u8>::empty());
            }
        },
        Bound::Excluded(end) => {
            law_encode_preserves_key_order(key, end, keyspace, key_mode);
            if end.len() == 0 {
                assert(end =~= Seq::<u8>::empty());
            }
        },
        Bound::Unbounded => {},
    }
}

} // verus!
