//! What a keyspace sees of the regions in a region error.

use vstd::prelude::*;

use crate::kv::codec::decoded_or_empty;
use crate::kv::order::{lemma_lex_chain, lemma_lex_not_lt, lex_le, lex_lt};
use crate::proto::errorpb;
use crate::proto::metapb::{Region, RegionView};
use crate::request::bucket_laws::reads_as;
use crate::request::keyspace::{encode_key, end_prefix_of, prefix_of, KeyMode, Keyspace};
use crate::request::keyspace_laws::{lemma_prefix, lemma_same_four, stands_for};
use crate::request::truncate::TruncateKeyspace;
use crate::request::truncate_epoch::{
    can_clip, can_truncate_region_error, clip_end, clip_range, clip_regions, clip_start,
    decode_ranges, epoch_mode, infer_key_mode_from_key, infer_key_mode_from_region,
    law_clipped_range_holds_the_same_keys, lemma_inside_starts_with_prefix, mode_of_ranges,
    region_views,
};

verus! {

/// The key starts with the letter of the mode.
pub open spec fn has_letter(key: Seq<u8>, mode: KeyMode) -> bool {
    key.len() > 0 && key[0] == (match mode {
        KeyMode::Raw => 114u8,
        KeyMode::Txn => 120u8,
    })
}

/// The key starts with the letter of no mode.
pub open spec fn has_no_letter(key: Seq<u8>) -> bool {
    !has_letter(key, KeyMode::Raw) && !has_letter(key, KeyMode::Txn)
}

/// The mode of a key is told by its first byte, and that of a region by its start key or, where
/// that tells none, by its end key.
pub proof fn law_the_first_byte_tells_the_mode(
    key: &[u8],
    of_key: Option<KeyMode>,
    region: &Region,
    of_region: Option<KeyMode>,
    mode: KeyMode,
)
    requires
        call_ensures(infer_key_mode_from_key, (key,), of_key),
        call_ensures(infer_key_mode_from_region, (region,), of_region),
    ensures
        of_key == Some(mode) <==> has_letter(key@, mode),
        of_region == Some(mode) <==> has_letter(region.start_key@, mode) || has_no_letter(
            region.start_key@,
        ) && has_letter(region.end_key@, mode),
{
    assert(region@.start_key == region.start_key@);
}

/// Both keys of the region can be decoded, and stand for these.
pub open spec fn spans(region: RegionView, start: Seq<u8>, end: Seq<u8>) -> bool {
    reads_as(region.start_key, start) && reads_as(region.end_key, end)
}

/// Both keys of each region can be decoded.
pub open spec fn can_be_read(regions: Seq<RegionView>) -> bool {
    forall|i: int|
        0 <= i < regions.len() ==> decoded_or_empty((#[trigger] regions[i]).start_key) is Ok
            && decoded_or_empty(regions[i].end_key) is Ok
}

/// The start key of the region, decoded.
pub open spec fn start_of(region: RegionView) -> Seq<u8> {
    decoded_or_empty(region.start_key)->Ok_0
}

/// The end key of the region, decoded.
pub open spec fn end_of(region: RegionView) -> Seq<u8> {
    decoded_or_empty(region.end_key)->Ok_0
}

/// The region tells no mode.
pub open spec fn tells_no_mode(region: RegionView) -> bool {
    has_no_letter(start_of(region)) && has_no_letter(end_of(region))
}

/// The region tells the mode, by its start key or else by its end key.
pub open spec fn tells_mode(region: RegionView, mode: KeyMode) -> bool {
    has_letter(start_of(region), mode) || has_no_letter(start_of(region)) && has_letter(
        end_of(region),
        mode,
    )
}

/// The mode is that of the first region that tells one, and that of raw keys if none does.
pub open spec fn is_mode_of(regions: Seq<RegionView>, mode: KeyMode) -> bool {
    ||| exists|i: int|
        0 <= i < regions.len() && tells_mode(#[trigger] regions[i], mode) && forall|j: int|
            0 <= j < i ==> tells_no_mode(#[trigger] regions[j])
    ||| mode == KeyMode::Raw && forall|i: int|
        0 <= i < regions.len() ==> tells_no_mode(#[trigger] regions[i])
}

/// The key lies in the range, which has no end if its end is empty.
pub open spec fn lies_in(start: Seq<u8>, end: Seq<u8>, key: Seq<u8>) -> bool {
    lex_le(start, key) && (end.len() == 0 || lex_lt(key, end))
}

/// A key of the keyspace lies in the region as it is seen just if what is stored for it lies in
/// the region as it was sent. Nothing else of the region differs.
pub open spec fn sees(
    sent: RegionView,
    seen: RegionView,
    keyspace_id: u32,
    mode: KeyMode,
) -> bool {
    &&& seen.id == sent.id
    &&& seen.region_epoch == sent.region_epoch
    &&& seen.peers == sent.peers
    &&& seen.is_in_flashback == sent.is_in_flashback
    &&& seen.flashback_start_ts == sent.flashback_start_ts
    &&& forall|stored: Seq<u8>, key: Seq<u8>| #[trigger]
        stands_for(stored, key, Keyspace::Enable { keyspace_id }, mode) ==> (lies_in(
            seen.start_key,
            seen.end_key,
            key,
        ) <==> lies_in(start_of(sent), end_of(sent), stored))
}

/// Nothing that is stored for a key of the keyspace lies in the region.
pub open spec fn sees_nothing(sent: RegionView, keyspace_id: u32, mode: KeyMode) -> bool {
    forall|stored: Seq<u8>, key: Seq<u8>| #[trigger]
        stands_for(stored, key, Keyspace::Enable { keyspace_id }, mode) ==> !lies_in(
            start_of(sent),
            end_of(sent),
            stored,
        )
}

/// The regions that are seen are those at the given places, in order. Each of them holds some key,
/// and the others hold nothing of the keyspace.
pub open spec fn are_seen(
    sent: Seq<RegionView>,
    seen: Seq<RegionView>,
    places: Seq<int>,
    keyspace_id: u32,
    mode: KeyMode,
) -> bool {
    &&& places.len() == seen.len()
    &&& forall|i: int|
        0 <= i < seen.len() ==> 0 <= #[trigger] places[i] < sent.len() && sees(
            sent[places[i]],
            seen[i],
            keyspace_id,
            mode,
        )
    &&& forall|i: int|
        0 <= i < seen.len() ==> lies_in(
            (#[trigger] seen[i]).start_key,
            seen[i].end_key,
            seen[i].start_key,
        )
    &&& forall|i: int, j: int| 0 <= i < j < places.len() ==> places[i] < places[j]
    &&& forall|k: int|
        0 <= k < sent.len() && !places.contains(k) ==> #[trigger] sees_nothing(
            sent[k],
            keyspace_id,
            mode,
        )
}

proof fn lemma_ranges(regions: Seq<RegionView>)
    ensures
        decode_ranges(regions) is Ok <==> can_be_read(regions),
        decode_ranges(regions) is Ok ==> decode_ranges(regions)->Ok_0.len() == regions.len(),
        forall|i: int|
            decode_ranges(regions) is Ok && 0 <= i < regions.len() ==> (
            #[trigger] decode_ranges(regions)->Ok_0[i]) == (start_of(regions[i]), end_of(regions[i])),
    decreases regions.len(),
{
    if regions.len() > 0 {
        let init = regions.drop_last();
        lemma_ranges(init);
        if can_be_read(regions) {
            assert forall|i: int| 0 <= i < init.len() implies decoded_or_empty(
                (#[trigger] init[i]).start_key,
            ) is Ok && decoded_or_empty(init[i].end_key) is Ok by {
                assert(init[i] == regions[i]);
            }
            assert(regions.last() == regions[regions.len() - 1]);
        }
        if decode_ranges(regions) is Ok {
            assert forall|i: int| 0 <= i < regions.len() implies decoded_or_empty(
                (#[trigger] regions[i]).start_key,
            ) is Ok && decoded_or_empty(regions[i].end_key) is Ok by {
                if i < init.len() {
                    assert(init[i] == regions[i]);
                }
            }
            let ranges = decode_ranges(regions)->Ok_0;
            assert forall|i: int| 0 <= i < regions.len() implies (#[trigger] ranges[i]) == (
                start_of(regions[i]),
                end_of(regions[i]),
            ) by {
                if i < init.len() {
                    assert(ranges[i] == decode_ranges(init)->Ok_0[i]);
                    assert(init[i] == regions[i]);
                }
            }
        }
    }
}

proof fn lemma_mode(regions: Seq<RegionView>, ranges: Seq<(Seq<u8>, Seq<u8>)>)
    requires
        ranges.len() == regions.len(),
        forall|i: int|
            0 <= i < regions.len() ==> (#[trigger] ranges[i]) == (
                start_of(regions[i]),
                end_of(regions[i]),
            ),
    ensures
        match mode_of_ranges(ranges) {
            Some(mode) => exists|i: int|
                0 <= i < regions.len() && tells_mode(#[trigger] regions[i], mode) && forall|j: int|
                    0 <= j < i ==> tells_no_mode(#[trigger] regions[j]),
            None => forall|i: int|
                0 <= i < regions.len() ==> tells_no_mode(#[trigger] regions[i]),
        },
    decreases regions.len(),
{
    if regions.len() > 0 {
        let init = regions.drop_last();
        let last = regions.len() - 1;
        assert(ranges[last] == (start_of(regions[last]), end_of(regions[last])));
        assert forall|i: int| 0 <= i < init.len() implies (#[trigger] ranges.drop_last()[i]) == (
            start_of(init[i]),
            end_of(init[i]),
        ) by {
            assert(ranges[i] == (start_of(regions[i]), end_of(regions[i])));
        }
        lemma_mode(init, ranges.drop_last());
        match mode_of_ranges(ranges.drop_last()) {
            Some(mode) => {
                let i = choose|i: int|
                    0 <= i < init.len() && tells_mode(#[trigger] init[i], mode) && forall|j: int|
                        0 <= j < i ==> tells_no_mode(#[trigger] init[j]);
                assert forall|j: int| 0 <= j < i implies tells_no_mode(#[trigger] regions[j]) by {
                    assert(tells_no_mode(init[j]));
                }
                assert(tells_mode(regions[i], mode));
            },
            None => {
                assert forall|j: int| 0 <= j < last implies tells_no_mode(#[trigger] regions[j]) by {
                    assert(tells_no_mode(init[j]));
                }
                match mode_of_ranges(ranges) {
                    Some(mode) => {
                        assert(tells_mode(regions[last], mode));
                    },
                    None => {
                        assert(tells_no_mode(regions[last]));
                    },
                }
            },
        }
    }
}

proof fn lemma_stored(stored: Seq<u8>, key: Seq<u8>, keyspace_id: u32, mode: KeyMode)
    requires
        stands_for(stored, key, Keyspace::Enable { keyspace_id }, mode),
    ensures
        stored == encode_key(key, Keyspace::Enable { keyspace_id }, mode),
{
    let prefix = prefix_of(keyspace_id, mode);
    lemma_prefix(keyspace_id, mode);
    lemma_same_four(stored, prefix);
    assert(stored =~= prefix + key);
}

proof fn lemma_seen_region_holds_its_start(
    range: (Seq<u8>, Seq<u8>),
    keyspace_id: u32,
    mode: KeyMode,
)
    requires
        can_clip(range, prefix_of(keyspace_id, mode), end_prefix_of(keyspace_id, mode)),
    ensures
        clip_range(
            range,
            prefix_of(keyspace_id, mode),
            end_prefix_of(keyspace_id, mode),
        ) matches Some((start_key, end_key)) ==> lies_in(start_key, end_key, start_key),
{
    let prefix = prefix_of(keyspace_id, mode);
    let keyspace_end = end_prefix_of(keyspace_id, mode);
    if let Some((start_key, end_key)) = clip_range(range, prefix, keyspace_end) {
        let start = clip_start(range.0, prefix);
        let end = clip_end(range.1, keyspace_end);
        lemma_lex_not_lt(range.0, prefix);
        lemma_lex_not_lt(keyspace_end, range.1);
        lemma_lex_chain(start, end, keyspace_end);
        lemma_lex_chain(start, end, range.1);
        if start == prefix {
            assert(start =~= prefix + start_key);
        } else {
            lemma_inside_starts_with_prefix(start, keyspace_id, mode);
        }
        law_clipped_range_holds_the_same_keys(range, start_key, keyspace_id, mode);
    }
}

proof fn lemma_seen(
    sent: Seq<RegionView>,
    ranges: Seq<(Seq<u8>, Seq<u8>)>,
    keyspace_id: u32,
    mode: KeyMode,
) -> (places: Seq<int>)
    requires
        ranges.len() == sent.len(),
        forall|i: int|
            0 <= i < sent.len() ==> (#[trigger] ranges[i]) == (
                start_of(sent[i]),
                end_of(sent[i]),
            ),
        forall|i: int|
            0 <= i < ranges.len() ==> can_clip(
                #[trigger] ranges[i],
                prefix_of(keyspace_id, mode),
                end_prefix_of(keyspace_id, mode),
            ),
    ensures
        are_seen(
            sent,
            clip_regions(
                sent,
                ranges,
                prefix_of(keyspace_id, mode),
                end_prefix_of(keyspace_id, mode),
            ),
            places,
            keyspace_id,
            mode,
        ),
    decreases sent.len(),
{
    let prefix = prefix_of(keyspace_id, mode);
    let end = end_prefix_of(keyspace_id, mode);
    let keyspace = Keyspace::Enable { keyspace_id };
    if sent.len() == 0 {
        Seq::empty()
    } else {
        let init = sent.drop_last();
        let last = sent.len() - 1;
        let range = ranges[last];
        assert(range == (start_of(sent[last]), end_of(sent[last])));
        assert forall|i: int| 0 <= i < init.len() implies (#[trigger] ranges.drop_last()[i]) == (
            start_of(init[i]),
            end_of(init[i]),
        ) && can_clip(ranges.drop_last()[i], prefix, end) by {
            assert(ranges[i] == (start_of(sent[i]), end_of(sent[i])));
        }
        let before = lemma_seen(init, ranges.drop_last(), keyspace_id, mode);
        let seen_before = clip_regions(init, ranges.drop_last(), prefix, end);
        let seen = clip_regions(sent, ranges, prefix, end);
        assert(can_clip(range, prefix, end));
        assert forall|stored: Seq<u8>, key: Seq<u8>| #[trigger]
            stands_for(stored, key, keyspace, mode) implies (lies_in(range.0, range.1, stored)
            <==> (match clip_range(range, prefix, end) {
            Some((start_key, end_key)) => lies_in(start_key, end_key, key),
            None => false,
        })) by {
            lemma_stored(stored, key, keyspace_id, mode);
            law_clipped_range_holds_the_same_keys(range, key, keyspace_id, mode);
        }
        match clip_range(range, prefix, end) {
            Some((start_key, end_key)) => {
                lemma_seen_region_holds_its_start(range, keyspace_id, mode);
                let places = before.push(last);
                assert forall|i: int| 0 <= i < seen.len() implies 0 <= #[trigger] places[i]
                    < sent.len() && sees(sent[places[i]], seen[i], keyspace_id, mode) by {
                    if i < seen_before.len() {
                        assert(places[i] == before[i]);
                        assert(sent[before[i]] == init[before[i]]);
                    }
                }
                assert forall|i: int, j: int| 0 <= i < j < places.len() implies places[i]
                    < places[j] by {
                    assert(places[i] == before[i]);
                    if j < before.len() {
                        assert(places[j] == before[j]);
                    }
                }
                assert forall|k: int|
                    0 <= k < sent.len() && !places.contains(k) implies #[trigger] sees_nothing(
                    sent[k],
                    keyspace_id,
                    mode,
                ) by {
                    assert(places[before.len() as int] == last);
                    assert(!before.contains(k)) by {
                        if before.contains(k) {
                            let i = choose|i: int| 0 <= i < before.len() && before[i] == k;
                            assert(places[i] == k);
                        }
                    }
                    assert(init[k] == sent[k]);
                    assert(sees_nothing(init[k], keyspace_id, mode));
                }
                places
            },
            None => {
                assert forall|i: int| 0 <= i < seen.len() implies 0 <= #[trigger] before[i]
                    < sent.len() && sees(sent[before[i]], seen[i], keyspace_id, mode) by {
                    assert(sent[before[i]] == init[before[i]]);
                }
                assert forall|k: int|
                    0 <= k < sent.len() && !before.contains(k) implies #[trigger] sees_nothing(
                    sent[k],
                    keyspace_id,
                    mode,
                ) by {
                    if k < last {
                        assert(init[k] == sent[k]);
                        assert(sees_nothing(init[k], keyspace_id, mode));
                    }
                }
                before
            },
        }
    }
}

/// A region error changes in a keyspace only in the regions of an epoch mismatch, and in these only
/// if all of their keys can be decoded. Then they are seen as the keyspace that the keys tell of
/// sees them.
pub proof fn law_regions_are_seen_through_the_keyspace(
    error: errorpb::Error,
    keyspace: Keyspace,
    r: errorpb::Error,
) -> (places: Seq<int>)
    requires
        error.truncatable(keyspace),
        call_ensures(<errorpb::Error as TruncateKeyspace>::truncate_keyspace, (error, keyspace), r),
    ensures
        r == (errorpb::Error { epoch_not_match: r.epoch_not_match, ..error }),
        keyspace is Disable || error.epoch_not_match is None ==> r == error,
        error.epoch_not_match is Some ==> r.epoch_not_match is Some && ({
            let sent = region_views(error.epoch_not_match->0.current_regions@);
            let seen = region_views(r.epoch_not_match->0.current_regions@);
            &&& !can_be_read(sent) ==> r == error
            &&& can_be_read(sent) && keyspace is Enable ==> exists|mode: KeyMode| #[trigger]
                is_mode_of(sent, mode) && are_seen(
                    sent,
                    seen,
                    places,
                    keyspace->keyspace_id,
                    mode,
                )
        }),
{
    match (keyspace, error.epoch_not_match) {
        (Keyspace::Enable { keyspace_id }, Some(epoch)) => {
            let sent = region_views(epoch.current_regions@);
            lemma_ranges(sent);
            if can_be_read(sent) {
                let ranges = decode_ranges(sent)->Ok_0;
                let mode = epoch_mode(ranges);
                assert forall|i: int| 0 <= i < sent.len() implies (#[trigger] ranges[i]) == (
                    start_of(sent[i]),
                    end_of(sent[i]),
                ) by {
                    assert(decode_ranges(sent)->Ok_0[i] == (start_of(sent[i]), end_of(sent[i])));
                }
                lemma_mode(sent, ranges);
                assert(is_mode_of(sent, mode));
                lemma_seen(sent, ranges, keyspace_id, mode)
            } else {
                Seq::empty()
            }
        },
        _ => Seq::empty(),
    }
}

/// A region error can be stripped if each key of its regions is empty or long enough to hold a
/// prefix. Where keys cannot be decoded, or where there is nothing to strip, it can be in any case.
pub proof fn law_long_keys_can_be_stripped(error: &errorpb::Error, keyspace: Keyspace, r: bool)
    requires
        call_ensures(can_truncate_region_error, (error, keyspace), r),
    ensures
        keyspace is Disable || error.epoch_not_match is None ==> r,
        error.epoch_not_match is Some ==> ({
            let sent = region_views(error.epoch_not_match->0.current_regions@);
            &&& !can_be_read(sent) ==> r
            &&& (forall|i: int|
                0 <= i < sent.len() ==> (start_of(#[trigger] sent[i]).len() == 0 || start_of(
                    sent[i],
                ).len() >= 4) && (end_of(sent[i]).len() == 0 || end_of(sent[i]).len() >= 4))
                ==> r
        }),
{
    match (keyspace, error.epoch_not_match) {
        (Keyspace::Enable { keyspace_id }, Some(epoch)) => {
            let sent = region_views(epoch.current_regions@);
            lemma_ranges(sent);
            if can_be_read(sent) {
                let ranges = decode_ranges(sent)->Ok_0;
                let prefix = prefix_of(keyspace_id, epoch_mode(ranges));
                assert forall|i: int|
                    0 <= i < sent.len() && (start_of(sent[i]).len() == 0 || start_of(sent[i]).len()
                        >= 4) && (end_of(sent[i]).len() == 0 || end_of(sent[i]).len()
                        >= 4) implies can_clip(
                    #[trigger] ranges[i],
                    prefix,
                    end_prefix_of(keyspace_id, epoch_mode(ranges)),
                ) by {
                    assert(decode_ranges(sent)->Ok_0[i] == (start_of(sent[i]), end_of(sent[i])));
                }
            }
        },
        _ => {},
    }
}

} // verus!
