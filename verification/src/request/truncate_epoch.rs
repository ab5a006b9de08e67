//! Region errors as a keyspace sees them.

use vstd::prelude::*;

use crate::common::errors::{Error, Result};
use crate::kv::codec::{decode_bytes_in_place, decoded_or_empty, DecodeFailure};
use crate::kv::key::{increment, lemma_increment_bounds_prefix};
use crate::kv::order::{
    bytes_eq, bytes_lt, bytes_to_vec, in_key_range, lemma_lex_asymmetric, lemma_lex_chain,
    lemma_lex_common_prefix, lemma_lex_extension, lemma_lex_extends, lemma_lex_irreflexive,
    lemma_lex_not_lt, lemma_lex_total, lex_le, lex_lt,
};
use crate::proto::errorpb;
use crate::proto::metapb::{Region, RegionView};
use crate::request::keyspace::{
    encode_key, end_prefix_of, keyspace_end_prefix, keyspace_prefix,
    law_encoded_keys_lie_in_their_keyspace, law_encode_preserves_key_order,
    lemma_increment_four, prefix_of, KeyMode, Keyspace, KEYSPACE_PREFIX_LEN, RAW_KEY_PREFIX,
    TXN_KEY_PREFIX,
};
use crate::request::truncate::TruncateKeyspace;

verus! {

/// The mode of a key, by its first byte.
pub open spec fn mode_of_key(key: Seq<u8>) -> Option<KeyMode> {
    if key.len() > 0 && key[0] == RAW_KEY_PREFIX {
        Some(KeyMode::Raw)
    } else if key.len() > 0 && key[0] == TXN_KEY_PREFIX {
        Some(KeyMode::Txn)
    } else {
        None
    }
}

/// The mode of a range, by its start or else by its end.
pub open spec fn mode_of_range(range: (Seq<u8>, Seq<u8>)) -> Option<KeyMode> {
    match mode_of_key(range.0) {
        Some(mode) => Some(mode),
        None => mode_of_key(range.1),
    }
}

/// The mode of the first range that tells its mode.
pub open spec fn mode_of_ranges(ranges: Seq<(Seq<u8>, Seq<u8>)>) -> Option<KeyMode>
    decreases ranges.len(),
{
    if ranges.len() == 0 {
        None
    } else {
        match mode_of_ranges(ranges.drop_last()) {
            Some(mode) => Some(mode),
            None => mode_of_range(ranges.last()),
        }
    }
}

/// The mode of a key, by its first byte.
pub fn infer_key_mode_from_key(key: &[u8]) -> (r: Option<KeyMode>)
    ensures
        r == mode_of_key(key@),
{
    if key.len() == 0 {
        return None;
    }
    let first: u8 = key[0];
    if first == RAW_KEY_PREFIX {
        Some(KeyMode::Raw)
    } else if first == TXN_KEY_PREFIX {
        Some(KeyMode::Txn)
    } else {
        None
    }
}

/// The mode of a region whose keys are decoded, by its start or else by its end.
pub fn infer_key_mode_from_region(region: &Region) -> (r: Option<KeyMode>)
    ensures
        r == mode_of_range((region@.start_key, region@.end_key)),
{
    match infer_key_mode_from_key(&region.start_key) {
        Some(mode) => Some(mode),
        None => infer_key_mode_from_key(&region.end_key),
    }
}

/// The decoded ranges of the regions, or why the first key that is none cannot be decoded.
pub open spec fn decode_ranges(regions: Seq<RegionView>) -> core::result::Result<
    Seq<(Seq<u8>, Seq<u8>)>,
    DecodeFailure,
>
    decreases regions.len(),
{
    if regions.len() == 0 {
        Ok(Seq::empty())
    } else {
        match decode_ranges(regions.drop_last()) {
            Err(failure) => Err(failure),
            Ok(ranges) => match decoded_or_empty(regions.last().start_key) {
                Err(failure) => Err(failure),
                Ok(start) => match decoded_or_empty(regions.last().end_key) {
                    Err(failure) => Err(failure),
                    Ok(end) => Ok(ranges.push((start, end))),
                },
            },
        }
    }
}

/// The start of the part of a range that lies in the keyspace.
pub open spec fn clip_start(start: Seq<u8>, prefix: Seq<u8>) -> Seq<u8> {
    if lex_lt(start, prefix) {
        prefix
    } else {
        start
    }
}

/// The end of the part of a range that lies in the keyspace.
pub open spec fn clip_end(end: Seq<u8>, keyspace_end: Seq<u8>) -> Seq<u8> {
    if end.len() == 0 || lex_lt(keyspace_end, end) {
        keyspace_end
    } else {
        end
    }
}

/// A key without the prefix, or the empty key where it is an edge of the keyspace.
pub open spec fn cut_at(key: Seq<u8>, edge: Seq<u8>) -> Seq<u8> {
    if key == edge {
        Seq::empty()
    } else {
        key.skip(KEYSPACE_PREFIX_LEN as int)
    }
}

/// The part of a range that lies in the keyspace, without the prefix.
pub open spec fn clip_range(
    range: (Seq<u8>, Seq<u8>),
    prefix: Seq<u8>,
    keyspace_end: Seq<u8>,
) -> Option<(Seq<u8>, Seq<u8>)> {
    let start = clip_start(range.0, prefix);
    let end = clip_end(range.1, keyspace_end);
    if lex_lt(start, end) {
        Some((cut_at(start, prefix), cut_at(end, keyspace_end)))
    } else {
        None
    }
}

/// Where a range is cut within the keyspace, there are enough bytes for a prefix.
pub open spec fn can_clip(
    range: (Seq<u8>, Seq<u8>),
    prefix: Seq<u8>,
    keyspace_end: Seq<u8>,
) -> bool {
    let start = clip_start(range.0, prefix);
    let end = clip_end(range.1, keyspace_end);
    lex_lt(start, end) ==> {
        &&& start == prefix || start.len() >= KEYSPACE_PREFIX_LEN
        &&& end == keyspace_end || end.len() >= KEYSPACE_PREFIX_LEN
    }
}

/// The regions that reach into the keyspace, cut down to it.
pub open spec fn clip_regions(
    regions: Seq<RegionView>,
    ranges: Seq<(Seq<u8>, Seq<u8>)>,
    prefix: Seq<u8>,
    keyspace_end: Seq<u8>,
) -> Seq<RegionView>
    decreases regions.len(),
{
    if regions.len() == 0 || ranges.len() == 0 {
        Seq::empty()
    } else {
        let rest = clip_regions(regions.drop_last(), ranges.drop_last(), prefix, keyspace_end);
        match clip_range(ranges.last(), prefix, keyspace_end) {
            Some((start_key, end_key)) => rest.push(
                RegionView { start_key, end_key, ..regions.last() },
            ),
            None => rest,
        }
    }
}

/// What the regions hold.
pub open spec fn region_views(regions: Seq<Region>) -> Seq<RegionView> {
    regions.map_values(|region: Region| region@)
}

/// The mode in which the regions of an error are read: that of the first key that tells it.
pub open spec fn epoch_mode(ranges: Seq<(Seq<u8>, Seq<u8>)>) -> KeyMode {
    match mode_of_ranges(ranges) {
        Some(mode) => mode,
        None => KeyMode::Raw,
    }
}

/// Every region of the error can be cut down to the keyspace.
pub open spec fn epoch_truncatable(regions: Seq<RegionView>, keyspace_id: u32) -> bool {
    match decode_ranges(regions) {
        Err(_) => true,
        Ok(ranges) => forall|i: int|
            0 <= i < ranges.len() ==> can_clip(
                #[trigger] ranges[i],
                prefix_of(keyspace_id, epoch_mode(ranges)),
                end_prefix_of(keyspace_id, epoch_mode(ranges)),
            ),
    }
}

/// The regions of the error as the keyspace sees them.
pub open spec fn truncate_epoch(regions: Seq<RegionView>, keyspace_id: u32) -> core::result::Result<
    Seq<RegionView>,
    DecodeFailure,
> {
    match decode_ranges(regions) {
        Err(failure) => Err(failure),
        Ok(ranges) => Ok(
            clip_regions(
                regions,
                ranges,
                prefix_of(keyspace_id, epoch_mode(ranges)),
                end_prefix_of(keyspace_id, epoch_mode(ranges)),
            ),
        ),
    }
}

/// The byte strings of a vector of ranges.
pub open spec fn range_views(ranges: Seq<(Vec<u8>, Vec<u8>)>) -> Seq<(Seq<u8>, Seq<u8>)> {
    ranges.map_values(|range: (Vec<u8>, Vec<u8>)| (range.0@, range.1@))
}

proof fn lemma_decode_ranges_len(regions: Seq<RegionView>)
    ensures
        decode_ranges(regions) is Ok ==> decode_ranges(regions)->Ok_0.len() == regions.len(),
    decreases regions.len(),
{
    if regions.len() > 0 {
        lemma_decode_ranges_len(regions.drop_last());
    }
}

/// Once a prefix of the regions fails to decode, so do all of them, for the same reason.
proof fn lemma_decode_ranges_fails(regions: Seq<RegionView>, n: int)
    requires
        0 <= n <= regions.len(),
        decode_ranges(regions.take(n)) is Err,
    ensures
        decode_ranges(regions) == decode_ranges(regions.take(n)),
    decreases regions.len(),
{
    if n == regions.len() {
        assert(regions.take(n) =~= regions);
    } else {
        assert(regions.drop_last().take(n) =~= regions.take(n));
        lemma_decode_ranges_fails(regions.drop_last(), n);
    }
}

fn decode_region_ranges(regions: &Vec<Region>) -> (r: Result<Vec<(Vec<u8>, Vec<u8>)>>)
    ensures
        match decode_ranges(region_views(regions@)) {
            Ok(ranges) => r is Ok && range_views(r->Ok_0@) == ranges,
            Err(failure) => r is Err && r->Err_0.is_internal(failure.text()),
        },
{
    let ghost views = region_views(regions@);
    let mut ranges: Vec<(Vec<u8>, Vec<u8>)> = Vec::new();
    let mut i: usize = 0;
    assert(views.take(0) =~= Seq::<RegionView>::empty());
    assert(range_views(ranges@) =~= Seq::<(Seq<u8>, Seq<u8>)>::empty());
    while i < regions.len()
        invariant
            i <= regions.len(),
            views == region_views(regions@),
            decode_ranges(views.take(i as int)) == Ok::<Seq<(Seq<u8>, Seq<u8>)>, DecodeFailure>(
                range_views(ranges@),
            ),
        decreases regions.len() - i,
    {
        proof {
            let next = views.take(i + 1);
            assert(next.drop_last() =~= views.take(i as int));
            assert(next.last() == regions@[i as int]@);
            if decode_ranges(next) is Err {
                lemma_decode_ranges_fails(views, i + 1);
            }
        }
        let mut start = bytes_to_vec(&regions[i].start_key);
        match decode_bytes_in_place(&mut start) {
            Err(error) => {
                return Err(error);
            },
            Ok(()) => {},
        }
        let mut end = bytes_to_vec(&regions[i].end_key);
        match decode_bytes_in_place(&mut end) {
            Err(error) => {
                return Err(error);
            },
            Ok(()) => {},
        }
        let ghost before = range_views(ranges@);
        ranges.push((start, end));
        assert(range_views(ranges@) =~= before.push((start@, end@)));
        i = i + 1;
    }
    assert(views.take(i as int) =~= views);
    Ok(ranges)
}

proof fn lemma_mode_of_ranges_found(ranges: Seq<(Seq<u8>, Seq<u8>)>, n: int)
    requires
        0 <= n <= ranges.len(),
        mode_of_ranges(ranges.take(n)) is Some,
    ensures
        mode_of_ranges(ranges) == mode_of_ranges(ranges.take(n)),
    decreases ranges.len(),
{
    if n == ranges.len() {
        assert(ranges.take(n) =~= ranges);
    } else {
        assert(ranges.drop_last().take(n) =~= ranges.take(n));
        lemma_mode_of_ranges_found(ranges.drop_last(), n);
    }
}

fn infer_key_mode_from_ranges(ranges: &Vec<(Vec<u8>, Vec<u8>)>) -> (r: KeyMode)
    ensures
        r == epoch_mode(range_views(ranges@)),
{
    let ghost views = range_views(ranges@);
    let mut i: usize = 0;
    while i < ranges.len()
        invariant
            i <= ranges.len(),
            views == range_views(ranges@),
            mode_of_ranges(views.take(i as int)) is None,
        decreases ranges.len() - i,
    {
        proof {
            let next = views.take(i + 1);
            assert(next.drop_last() =~= views.take(i as int));
            assert(next.last() == (ranges@[i as int].0@, ranges@[i as int].1@));
            if mode_of_ranges(next) is Some {
                lemma_mode_of_ranges_found(views, i + 1);
            }
        }
        let from_start = infer_key_mode_from_key(&ranges[i].0);
        if let Some(mode) = from_start {
            return mode;
        }
        let from_end = infer_key_mode_from_key(&ranges[i].1);
        if let Some(mode) = from_end {
            return mode;
        }
        i = i + 1;
    }
    assert(views.take(i as int) =~= views);
    KeyMode::Raw
}

fn cut_key(key: &[u8], edge: &[u8]) -> (r: Vec<u8>)
    requires
        key@ == edge@ || key@.len() >= KEYSPACE_PREFIX_LEN,
    ensures
        r@ == cut_at(key@, edge@),
{
    if bytes_eq(key, edge) {
        Vec::new()
    } else {
        let parts = key.split_at(KEYSPACE_PREFIX_LEN);
        assert(parts.1@ =~= key@.skip(4));
        bytes_to_vec(parts.1)
    }
}

fn can_cut(key: &[u8], edge: &[u8]) -> (r: bool)
    ensures
        r == (key@ == edge@ || key@.len() >= KEYSPACE_PREFIX_LEN),
{
    bytes_eq(key, edge) || key.len() >= KEYSPACE_PREFIX_LEN
}

/// Whether every region of the error can be cut down to the keyspace.
pub fn can_truncate_epoch(err: &errorpb::EpochNotMatch, keyspace_id: u32) -> (r: bool)
    ensures
        r == epoch_truncatable(region_views(err.current_regions@), keyspace_id),
{
    let ranges = match decode_region_ranges(&err.current_regions) {
        Err(_) => {
            return true;
        },
        Ok(ranges) => ranges,
    };
    let ghost keys = range_views(ranges@);
    let key_mode = infer_key_mode_from_ranges(&ranges);
    let prefix = keyspace_prefix(keyspace_id, key_mode);
    let end = keyspace_end_prefix(keyspace_id, key_mode);
    let mut i: usize = 0;
    while i < ranges.len()
        invariant
            i <= ranges.len(),
            keys == range_views(ranges@),
            decode_ranges(region_views(err.current_regions@)) == Ok::<
                Seq<(Seq<u8>, Seq<u8>)>,
                DecodeFailure,
            >(keys),
            prefix@ == prefix_of(keyspace_id, epoch_mode(keys)),
            end@ == end_prefix_of(keyspace_id, epoch_mode(keys)),
            forall|k: int| 0 <= k < i ==> can_clip(#[trigger] keys[k], prefix@, end@),
        decreases ranges.len() - i,
    {
        assert(keys[i as int] == (ranges@[i as int].0@, ranges@[i as int].1@));
        let start: &[u8] = if bytes_lt(&ranges[i].0, &prefix) {
            &prefix
        } else {
            &ranges[i].0
        };
        let stop: &[u8] = if ranges[i].1.len() == 0 || bytes_lt(&end, &ranges[i].1) {
            &end
        } else {
            &ranges[i].1
        };
        if bytes_lt(start, stop) && !(can_cut(start, &prefix) && can_cut(stop, &end)) {
            assert(!can_clip(keys[i as int], prefix@, end@));
            return false;
        }
        i = i + 1;
    }
    true
}

/// Whether every key in the region error that has to be cut is long enough to hold a prefix.
pub fn can_truncate_region_error(error: &errorpb::Error, keyspace: Keyspace) -> (r: bool)
    ensures
        r == error.truncatable(keyspace),
{
    match (keyspace, &error.epoch_not_match) {
        (Keyspace::Enable { keyspace_id }, Some(epoch)) => can_truncate_epoch(epoch, keyspace_id),
        _ => true,
    }
}

/// Cut the regions of the error down to the keyspace.
///
/// The keys of the regions are memcomparable encoded. They are decoded first; then each region is
/// intersected with the range of the keyspace and stripped of its prefix. Regions that do not
/// reach into the keyspace are left out.
pub fn truncate_epoch_not_match(err: &errorpb::EpochNotMatch, keyspace_id: u32) -> (r: Result<
    errorpb::EpochNotMatch,
>)
    requires
        epoch_truncatable(region_views(err.current_regions@), keyspace_id),
    ensures
        match truncate_epoch(region_views(err.current_regions@), keyspace_id) {
            Ok(regions) => r is Ok && region_views(r->Ok_0.current_regions@) == regions,
            Err(failure) => r is Err && r->Err_0.is_internal(failure.text()),
        },
{
    let ghost views = region_views(err.current_regions@);
    let ranges = match decode_region_ranges(&err.current_regions) {
        Err(error) => {
            return Err(error);
        },
        Ok(ranges) => ranges,
    };
    let ghost keys = range_views(ranges@);
    let key_mode = infer_key_mode_from_ranges(&ranges);
    let prefix = keyspace_prefix(keyspace_id, key_mode);
    let end = keyspace_end_prefix(keyspace_id, key_mode);
    proof {
        lemma_decode_ranges_len(views);
    }

    let mut regions: Vec<Region> = Vec::new();
    let mut i: usize = 0;
    assert(region_views(regions@) =~= clip_regions(views.take(0), keys.take(0), prefix@, end@));
    while i < err.current_regions.len()
        invariant
            i <= err.current_regions.len(),
            views == region_views(err.current_regions@),
            keys == range_views(ranges@),
            ranges@.len() == err.current_regions@.len(),
            forall|k: int| 0 <= k < keys.len() ==> can_clip(#[trigger] keys[k], prefix@, end@),
            region_views(regions@) == clip_regions(
                views.take(i as int),
                keys.take(i as int),
                prefix@,
                end@,
            ),
        decreases err.current_regions.len() - i,
    {
        let ghost before = region_views(regions@);
        proof {
            assert(views.take(i + 1).drop_last() =~= views.take(i as int));
            assert(keys.take(i + 1).drop_last() =~= keys.take(i as int));
            assert(keys.take(i + 1).last() == keys[i as int]);
            assert(can_clip(keys[i as int], prefix@, end@));
        }
        let start: &[u8] = if bytes_lt(&ranges[i].0, &prefix) {
            &prefix
        } else {
            &ranges[i].0
        };
        let stop: &[u8] = if ranges[i].1.len() == 0 || bytes_lt(&end, &ranges[i].1) {
            &end
        } else {
            &ranges[i].1
        };
        if bytes_lt(start, stop) {
            let mut region = err.current_regions[i].clone();
            region.start_key = cut_key(start, &prefix);
            region.end_key = cut_key(stop, &end);
            regions.push(region);
            assert(region_views(regions@) =~= before.push(region@));
        }
        i = i + 1;
    }
    assert(views.take(i as int) =~= views);
    assert(keys.take(i as int) =~= keys);
    Ok(errorpb::EpochNotMatch { current_regions: regions })
}

impl TruncateKeyspace for errorpb::Error {
    open spec fn truncatable(self, keyspace: Keyspace) -> bool {
        match (keyspace, self.epoch_not_match) {
            (Keyspace::Enable { keyspace_id }, Some(epoch)) => epoch_truncatable(
                region_views(epoch.current_regions@),
                keyspace_id,
            ),
            _ => true,
        }
    }

    /// Only the regions of an epoch mismatch change, and only if all their keys can be decoded.
    open spec fn truncates_to(self, keyspace: Keyspace, result: Self) -> bool {
        &&& result == (errorpb::Error { epoch_not_match: result.epoch_not_match, ..self })
        &&& match (keyspace, self.epoch_not_match) {
            (Keyspace::Enable { keyspace_id }, Some(epoch)) => match truncate_epoch(
                region_views(epoch.current_regions@),
                keyspace_id,
            ) {
                Ok(regions) => result.epoch_not_match is Some && region_views(
                    result.epoch_not_match->0.current_regions@,
                ) == regions,
                Err(_) => result.epoch_not_match == self.epoch_not_match,
            },
            _ => result.epoch_not_match == self.epoch_not_match,
        }
    }

    fn truncate_keyspace(self, keyspace: Keyspace) -> (r: Self) {
        let keyspace_id: u32 = match keyspace {
            Keyspace::Disable => {
                return self;
            },
            Keyspace::Enable { keyspace_id } => keyspace_id,
        };
        let mut error = self;
        if let Some(epoch) = error.epoch_not_match.take() {
            error.epoch_not_match = match truncate_epoch_not_match(&epoch, keyspace_id) {
                Ok(truncated) => Some(truncated),
                Err(_) => Some(epoch),
            };
        }
        error
    }
}

/// Byte strings of the same length compare by all but their last bytes, then by those.
proof fn lemma_lex_push(a: Seq<u8>, x: u8, b: Seq<u8>, y: u8)
    requires
        a.len() == b.len(),
    ensures
        lex_lt(a.push(x), b.push(y)) <==> lex_lt(a, b) || (a == b && x < y),
{
    assert(a.push(x) =~= a + seq![x]);
    assert(b.push(y) =~= b + seq![y]);
    lemma_lex_total(a, b);
    if lex_lt(a, b) {
        lemma_lex_extends(a, b, seq![x], seq![y]);
    } else if lex_lt(b, a) {
        lemma_lex_extends(b, a, seq![y], seq![x]);
        lemma_lex_asymmetric(b + seq![y], a + seq![x]);
        lemma_lex_asymmetric(b, a);
    } else {
        lemma_lex_common_prefix(a, seq![x], seq![y]);
        reveal_with_fuel(lex_lt, 2);
        lemma_lex_irreflexive(a);
    }
}

/// Between a byte string and its increment lies no other one of its length.
proof fn lemma_nothing_between(p: Seq<u8>, t: Seq<u8>)
    requires
        increment(p) is Some,
        t.len() == p.len(),
        lex_le(p, t),
        lex_lt(t, increment(p)->0),
    ensures
        t == p,
    decreases p.len(),
{
    let next = increment(p)->0;
    let (init, last) = (p.drop_last(), p.last());
    let (t_init, t_last) = (t.drop_last(), t.last());
    assert(p =~= init.push(last));
    assert(t =~= t_init.push(t_last));
    lemma_lex_push(init, last, t_init, t_last);
    if last < 255 {
        assert(next =~= init.push((last + 1) as u8));
        lemma_lex_push(t_init, t_last, init, (last + 1) as u8);
        if lex_lt(init, t_init) {
            lemma_lex_asymmetric(init, t_init);
        }
        lemma_lex_irreflexive(init);
    } else {
        let shorter = increment(init)->0;
        lemma_increment_bounds_prefix(init, Seq::empty());
        assert(next =~= shorter.push(0));
        lemma_lex_push(t_init, t_last, shorter, 0);
        assert(lex_le(init, t_init));
        lemma_nothing_between(init, t_init);
        lemma_lex_irreflexive(init);
    }
}

/// A key that lies in the keyspace, and is long enough to hold a prefix, starts with it.
pub(crate) proof fn lemma_inside_starts_with_prefix(key: Seq<u8>, keyspace_id: u32, mode: KeyMode)
    requires
        lex_le(prefix_of(keyspace_id, mode), key),
        lex_lt(key, end_prefix_of(keyspace_id, mode)),
        key.len() >= KEYSPACE_PREFIX_LEN,
    ensures
        key == prefix_of(keyspace_id, mode) + key.skip(4),
{
    let prefix = prefix_of(keyspace_id, mode);
    let head = key.take(4);
    let tail = key.skip(4);
    lemma_increment_four(prefix);
    assert(key =~= head + tail);
    lemma_lex_extension(head, tail);
    lemma_lex_chain(head, key, end_prefix_of(keyspace_id, mode));
    lemma_lex_not_lt(head, prefix);
    if lex_lt(head, prefix) {
        lemma_lex_extends(head, prefix, tail, Seq::empty());
        lemma_lex_not_lt(key, prefix);
    }
    lemma_nothing_between(prefix, head);
}

/// A key lies in a region as the keyspace sees it exactly if it lies, encoded, in the region; a
/// region that the keyspace does not see holds no key of it.
pub proof fn law_clipped_range_holds_the_same_keys(
    range: (Seq<u8>, Seq<u8>),
    key: Seq<u8>,
    keyspace_id: u32,
    mode: KeyMode,
)
    requires
        can_clip(range, prefix_of(keyspace_id, mode), end_prefix_of(keyspace_id, mode)),
    ensures
        in_key_range(
            range.0,
            range.1,
            encode_key(key, Keyspace::Enable { keyspace_id }, mode),
        ) <==> (match clip_range(
            range,
            prefix_of(keyspace_id, mode),
            end_prefix_of(keyspace_id, mode),
        ) {
            Some((start, end)) => in_key_range(start, end, key),
            None => false,
        }),
{
    let keyspace = Keyspace::Enable { keyspace_id };
    let prefix = prefix_of(keyspace_id, mode);
    let keyspace_end = end_prefix_of(keyspace_id, mode);
    let inside = encode_key(key, keyspace, mode);
    let start = clip_start(range.0, prefix);
    let end = clip_end(range.1, keyspace_end);
    law_encoded_keys_lie_in_their_keyspace(key, keyspace_id, mode);

    // Clipping does not matter to a key of the keyspace.
    assert(lex_le(range.0, inside) <==> lex_le(start, inside)) by {
        if lex_lt(range.0, prefix) {
            lemma_lex_chain(range.0, prefix, inside);
        }
    }
    assert((range.1.len() == 0 || lex_lt(inside, range.1)) <==> lex_lt(inside, end)) by {
        if range.1.len() > 0 && lex_lt(keyspace_end, range.1) {
            lemma_lex_chain(inside, keyspace_end, range.1);
        }
    }
    if lex_lt(start, end) {
        assert(lex_le(prefix, start)) by {
            lemma_lex_not_lt(range.0, prefix);
        }
        assert(lex_le(end, keyspace_end)) by {
            lemma_lex_not_lt(keyspace_end, range.1);
        }
        if start != prefix {
            lemma_lex_chain(start, end, keyspace_end);
            lemma_inside_starts_with_prefix(start, keyspace_id, mode);
            law_encode_preserves_key_order(start.skip(4), key, keyspace, mode);
        } else {
            lemma_lex_extension(prefix, key);
            assert(cut_at(start, prefix) =~= Seq::<u8>::empty());
            lemma_lex_not_lt(key, Seq::empty());
        }
        if end != keyspace_end {
            lemma_lex_chain(prefix, start, end);
            lemma_inside_starts_with_prefix(end, keyspace_id, mode);
            law_encode_preserves_key_order(key, end.skip(4), keyspace, mode);
            if end.skip(4).len() == 0 {
                assert(end =~= prefix);
                lemma_lex_chain(prefix, start, end);
                lemma_lex_irreflexive(prefix);
            }
        }
    } else if lex_le(start, inside) && lex_lt(inside, end) {
        lemma_lex_chain(start, inside, end);
    }
}

} // verus!
