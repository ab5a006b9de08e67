//! Walks and groupings from their start to their end.

use vstd::prelude::*;

use crate::kv::bound_range::{
    law_bounds_give_back_their_keys, law_bounds_mean_their_keys, BoundRange,
};
use crate::kv::key::Key;
use crate::kv::order::{
    in_key_range, lemma_lex_chain, lemma_lex_irreflexive, lemma_lex_not_lt, lemma_lex_transitive,
    lex_le, lex_lt,
};
use crate::pd::groups::{
    group_len, grouped_ranges, joined_ranges, law_a_group_is_the_longest_run,
    law_a_group_stays_in_its_region, law_a_walk_goes_forward, law_a_walk_leaves_out_no_key,
    reaches_beyond, some_range_holds, RangeView, RangeWalk,
};
use crate::region::RegionWithLeaderView;
use crate::store::{intersection, is_cover, law_the_intersection_holds_the_common_keys};

verus! {

/// A walk over the regions of a range: where it stood, and the regions that it came through.
pub struct WalkRun {
    pub walks: Seq<RangeWalk>,
    pub regions: Seq<RegionWithLeaderView>,
}

impl WalkRun {
    /// The walk goes on behind a region that holds the key at which it stood.
    pub open spec fn steps(self, i: int) -> bool {
        &&& self.walks[i].start is Some
        &&& self.regions[i].contains(self.walks[i].start->0@)
        &&& self.walks[i].advances(self.regions[i], self.walks[i + 1])
    }

    /// The walk begins at the start of the range.
    pub open spec fn is_run(self, range: BoundRange) -> bool {
        &&& self.walks.len() == self.regions.len() + 1
        &&& self.walks[0].is_at_start_of(range)
        &&& forall|i: int| 0 <= i < self.regions.len() ==> #[trigger] self.steps(i)
    }

    /// Some region that the walk came through holds the key.
    pub open spec fn has_come_through(self, key: Seq<u8>) -> bool {
        exists|i: int| 0 <= i < self.regions.len() && (#[trigger] self.regions[i]).contains(key)
    }

    /// The walk up to the given number of regions.
    pub open spec fn up_to(self, regions: int) -> WalkRun {
        WalkRun { walks: self.walks.take(regions + 1), regions: self.regions.take(regions) }
    }
}

proof fn lemma_part_of_walk(run: WalkRun, range: BoundRange, regions: int)
    requires
        run.is_run(range),
        0 <= regions <= run.regions.len(),
    ensures
        run.up_to(regions).is_run(range),
{
    let part = run.up_to(regions);
    assert forall|i: int| 0 <= i < part.regions.len() implies #[trigger] part.steps(i) by {
        assert(run.steps(i));
    }
}

proof fn lemma_walked_or_left(run: WalkRun, range: BoundRange, key: Seq<u8>)
    requires
        run.is_run(range),
        run.walks[0].covers(key),
    ensures
        run.has_come_through(key) || run.walks.last().covers(key),
    decreases run.regions.len(),
{
    if run.regions.len() > 0 {
        let n = run.regions.len() - 1;
        let past = run.up_to(n);
        lemma_part_of_walk(run, range, n);
        lemma_walked_or_left(past, range, key);
        assert(past.walks.last() == run.walks[n]);
        if past.has_come_through(key) {
            let i = choose|i: int|
                0 <= i < past.regions.len() && (#[trigger] past.regions[i]).contains(key);
            assert(run.regions[i].contains(key));
        } else {
            assert(run.steps(n));
            assert(run.regions[n] == run.regions.last());
            law_a_walk_leaves_out_no_key(run.walks[n], run.walks[n + 1], run.regions[n], key);
        }
    }
}

/// A walk that has ended has come through the region of every key of the range.
pub proof fn law_a_walk_comes_through_the_whole_range(
    run: WalkRun,
    range: BoundRange,
    key: Seq<u8>,
)
    requires
        run.is_run(range),
        run.walks.last().start is None,
        range.has(key),
    ensures
        run.has_come_through(key),
{
    law_bounds_mean_their_keys(range.from.bytes(), range.to.bytes(), key);
    lemma_walked_or_left(run, range, key);
}

/// The regions of a walk come in the order of their keys: each region ends at or before the key
/// for which a later one is taken, which lies behind all the earlier ones and in the range.
pub proof fn law_the_regions_of_a_walk_come_in_order(
    run: WalkRun,
    range: BoundRange,
    i: int,
    j: int,
)
    requires
        run.is_run(range),
        0 <= i < j < run.regions.len(),
    ensures
        run.regions[i].region.end_key.len() > 0,
        lex_le(run.regions[i].region.end_key, run.walks[j].start->0@),
        lex_lt(run.walks[i].start->0@, run.walks[j].start->0@),
        run.regions[j].contains(run.walks[j].start->0@),
        !run.regions[i].contains(run.walks[j].start->0@),
        run.walks[0].covers(run.walks[j].start->0@),
    decreases j,
{
    let last = j - 1;
    assert(run.steps(last));
    assert(run.steps(j));
    law_a_walk_goes_forward(run.walks[last], run.regions[last]);
    let before = run.walks[last].start->0@;
    let key = run.walks[j].start->0@;
    assert(key == run.regions[last].region.end_key);
    lemma_lex_irreflexive(key);
    lemma_same_end(run, range, last);
    lemma_lex_not_lt(before, key);
    if run.walks[0].end is Some {
        lemma_lex_not_lt(key, run.walks[0].end->0@);
    }
    if last > 0 {
        law_the_regions_of_a_walk_come_in_order(run, range, 0, last);
        lemma_lex_chain(run.walks[0].start->0@, before, key);
    }
    if i < last {
        law_the_regions_of_a_walk_come_in_order(run, range, i, last);
        lemma_lex_transitive(run.walks[i].start->0@, before, key);
        lemma_lex_chain(run.regions[i].region.end_key, before, key);
        lemma_lex_chain(key, run.regions[i].region.end_key, key);
    }
}

/// A walk goes to the same end throughout.
proof fn lemma_same_end(run: WalkRun, range: BoundRange, i: int)
    requires
        run.is_run(range),
        0 <= i <= run.regions.len(),
    ensures
        run.walks[i].end == run.walks[0].end,
    decreases i,
{
    if i > 0 {
        lemma_same_end(run, range, i - 1);
        assert(run.steps(i - 1));
    }
}

/// The parts of a range that are asked of the regions of a walk hold just the keys of the range.
pub proof fn law_the_parts_of_a_range_hold_its_keys(
    run: WalkRun,
    covered: BoundRange,
    range: RangeView,
    key: Seq<u8>,
)
    requires
        run.is_run(covered),
        run.walks.last().start is None,
        is_cover(range, covered),
    ensures
        in_key_range(range.0, range.1, key) <==> exists|i: int|
            0 <= i < run.regions.len() && {
                let part = intersection(
                    ((#[trigger] run.regions[i]).region.start_key, run.regions[i].region.end_key),
                    range,
                );
                in_key_range(part.0, part.1, key)
            },
{
    if in_key_range(range.0, range.1, key) {
        law_bounds_give_back_their_keys(range.0, range.1);
        law_bounds_mean_their_keys(covered.from.bytes(), covered.to.bytes(), key);
        law_a_walk_comes_through_the_whole_range(run, covered, key);
        let i = choose|i: int|
            0 <= i < run.regions.len() && (#[trigger] run.regions[i]).contains(key);
        law_the_intersection_holds_the_common_keys(
            (run.regions[i].region.start_key, run.regions[i].region.end_key),
            range,
            key,
        );
    }
    if exists|i: int|
        0 <= i < run.regions.len() && {
            let part = intersection(
                ((#[trigger] run.regions[i]).region.start_key, run.regions[i].region.end_key),
                range,
            );
            in_key_range(part.0, part.1, key)
        } {
        let i = choose|i: int|
            0 <= i < run.regions.len() && {
                let part = intersection(
                    ((#[trigger] run.regions[i]).region.start_key, run.regions[i].region.end_key),
                    range,
                );
                in_key_range(part.0, part.1, key)
            };
        law_the_intersection_holds_the_common_keys(
            (run.regions[i].region.start_key, run.regions[i].region.end_key),
            range,
            key,
        );
    }
}

/// A grouping of keys: the keys that were left each time, and the groups with their regions.
pub struct KeyGroupingRun {
    pub left: Seq<Seq<Key>>,
    pub groups: Seq<Seq<Key>>,
    pub regions: Seq<RegionWithLeaderView>,
}

impl KeyGroupingRun {
    /// A group is taken of the keys that were left, whose first one lies in the region.
    pub open spec fn steps(self, i: int) -> bool {
        let n = group_len(self.left[i], self.regions[i]) as int;
        &&& self.left[i].len() > 0
        &&& self.regions[i].contains(self.left[i][0]@)
        &&& self.groups[i] == self.left[i].take(n)
        &&& self.left[i + 1] == self.left[i].skip(n)
    }

    /// The grouping begins with the given keys.
    pub open spec fn is_run(self, keys: Seq<Key>) -> bool {
        &&& self.left.len() == self.groups.len() + 1
        &&& self.regions.len() == self.groups.len()
        &&& self.left[0] == keys
        &&& forall|i: int| 0 <= i < self.groups.len() ==> #[trigger] self.steps(i)
    }
}

/// The groups, one after the other, and then the keys that are left, are the keys in their order.
/// So nothing is lost and nothing added, and once no key is left the groups are all of them. Each
/// group holds only keys of its region, and at least one.
pub proof fn law_the_groups_are_the_keys_in_their_order(run: KeyGroupingRun, keys: Seq<Key>)
    requires
        run.is_run(keys),
    ensures
        run.groups.flatten() + run.left.last() == keys,
        run.left.last().len() == 0 ==> run.groups.flatten() == keys,
        forall|i: int, k: int|
            0 <= i < run.groups.len() && 0 <= k < run.groups[i].len() ==> run.regions[i].contains(
                (#[trigger] run.groups[i][k])@,
            ),
        forall|i: int| 0 <= i < run.groups.len() ==> (#[trigger] run.groups[i]).len() > 0,
    decreases run.groups.len(),
{
    if run.groups.len() == 0 {
        assert(run.groups.flatten() + run.left.last() =~= keys);
    } else {
        let n = run.groups.len() - 1;
        let past = KeyGroupingRun {
            left: run.left.drop_last(),
            groups: run.groups.drop_last(),
            regions: run.regions.drop_last(),
        };
        assert forall|i: int| 0 <= i < past.groups.len() implies #[trigger] past.steps(i) by {
            assert(run.steps(i));
        }
        assert(run.steps(n));
        law_the_groups_are_the_keys_in_their_order(past, keys);
        let last = run.groups[n];
        let before = run.left[n];
        let region = run.regions[n];
        law_a_group_is_the_longest_run(before, region);
        assert(run.groups =~= past.groups.push(last));
        past.groups.lemma_flatten_push(last);
        assert(last + run.left.last() =~= before);
        assert(run.groups.flatten() + run.left.last() =~= past.groups.flatten() + before);
        assert forall|i: int, k: int|
            0 <= i < run.groups.len() && 0 <= k < run.groups[i].len() implies run.regions[i].contains(
            (#[trigger] run.groups[i][k])@,
        ) by {
            if i < n {
                assert(past.groups[i][k] == run.groups[i][k]);
                assert(past.regions[i] == run.regions[i]);
            } else {
                assert(last[k] == before[k]);
            }
        }
        assert forall|i: int| 0 <= i < run.groups.len() implies (#[trigger] run.groups[i]).len()
            > 0 by {
            if i < n {
                assert(past.groups[i] == run.groups[i]);
            }
        }
    }
    assert(run.groups.flatten() + Seq::<Key>::empty() =~= run.groups.flatten());
    if run.left.last().len() == 0 {
        assert(run.left.last() =~= Seq::<Key>::empty());
    }
}

/// The pieces are the ranges in their order, some of them split at keys that lie in them.
pub open spec fn splits(pieces: Seq<RangeView>, ranges: Seq<RangeView>) -> bool
    decreases pieces.len(),
{
    if pieces.len() == 0 {
        ranges.len() == 0
    } else {
        let at = pieces[0].1;
        &&& ranges.len() > 0
        &&& pieces[0].0 == ranges[0].0
        &&& {
            ||| at == ranges[0].1 && splits(pieces.skip(1), ranges.skip(1))
            ||| at.len() > 0 && lex_le(ranges[0].0, at) && (lex_lt(at, ranges[0].1)
                || ranges[0].1.len() == 0) && splits(
                pieces.skip(1),
                seq![(at, ranges[0].1)] + ranges.skip(1),
            )
        }
    }
}

/// A grouping of ranges: the ranges that were left each time, and the groups with their regions.
pub struct RangeGroupingRun {
    pub left: Seq<Seq<RangeView>>,
    pub groups: Seq<Seq<RangeView>>,
    pub regions: Seq<RegionWithLeaderView>,
}

impl RangeGroupingRun {
    /// A group is taken of the ranges that were left, whose first one starts in the region.
    pub open spec fn steps(self, i: int) -> bool {
        &&& self.left[i].len() > 0
        &&& self.regions[i].contains(self.left[i][0].0)
        &&& (self.groups[i], self.left[i + 1]) == grouped_ranges(self.left[i], self.regions[i])
    }

    /// The grouping begins with the given ranges.
    pub open spec fn is_run(self, ranges: Seq<RangeView>) -> bool {
        &&& self.left.len() == self.groups.len() + 1
        &&& self.regions.len() == self.groups.len()
        &&& self.left[0] == ranges
        &&& forall|i: int| 0 <= i < self.groups.len() ==> #[trigger] self.steps(i)
    }
}

proof fn lemma_joined_ranges_split(
    ranges: Seq<RangeView>,
    region: RegionWithLeaderView,
    pieces: Seq<RangeView>,
)
    requires
        splits(pieces, joined_ranges(ranges, region).1),
    ensures
        splits(joined_ranges(ranges, region).0 + pieces, ranges),
    decreases ranges.len(),
{
    let (group, left) = joined_ranges(ranges, region);
    let region_end = region.region.end_key;
    let all = group + pieces;
    if ranges.len() == 0 || lex_lt(ranges[0].0, region.region.start_key) || lex_lt(
        region_end,
        ranges[0].0,
    ) {
        assert(all =~= pieces);
    } else if reaches_beyond(ranges[0].1, region) {
        lemma_lex_not_lt(region_end, ranges[0].0);
        assert(all.skip(1) =~= pieces);
    } else {
        let (more, _) = joined_ranges(ranges.skip(1), region);
        lemma_joined_ranges_split(ranges.skip(1), region, pieces);
        assert(all.skip(1) =~= more + pieces);
        assert(all[0] == ranges[0]);
    }
}

proof fn lemma_grouped_ranges_split(
    ranges: Seq<RangeView>,
    region: RegionWithLeaderView,
    pieces: Seq<RangeView>,
)
    requires
        ranges.len() > 0,
        region.contains(ranges[0].0),
        splits(pieces, grouped_ranges(ranges, region).1),
    ensures
        splits(grouped_ranges(ranges, region).0 + pieces, ranges),
{
    let (group, left) = grouped_ranges(ranges, region);
    let all = group + pieces;
    assert(all[0] == group[0]);
    if reaches_beyond(ranges[0].1, region) {
        assert(all.skip(1) =~= pieces);
    } else {
        let (more, _) = joined_ranges(ranges.skip(1), region);
        lemma_joined_ranges_split(ranges.skip(1), region, pieces);
        assert(all.skip(1) =~= more + pieces);
    }
}

/// Ranges hold the same keys when some of them are split.
pub proof fn law_split_ranges_hold_the_same_keys(
    pieces: Seq<RangeView>,
    ranges: Seq<RangeView>,
    key: Seq<u8>,
)
    requires
        splits(pieces, ranges),
    ensures
        some_range_holds(pieces, key) <==> some_range_holds(ranges, key),
    decreases pieces.len(),
{
    if pieces.len() > 0 {
        let at = pieces[0].1;
        crate::pd::groups::lemma_first_and_rest(pieces, key);
        crate::pd::groups::lemma_first_and_rest(ranges, key);
        if at == ranges[0].1 && splits(pieces.skip(1), ranges.skip(1)) {
            law_split_ranges_hold_the_same_keys(pieces.skip(1), ranges.skip(1), key);
        } else {
            let rest = seq![(at, ranges[0].1)] + ranges.skip(1);
            law_split_ranges_hold_the_same_keys(pieces.skip(1), rest, key);
            crate::pd::groups::lemma_split(ranges[0].0, at, ranges[0].1, key);
            crate::pd::groups::lemma_first_and_rest(rest, key);
            assert(rest.skip(1) =~= ranges.skip(1));
        }
    }
}

proof fn lemma_grouping_splits(run: RangeGroupingRun, ranges: Seq<RangeView>, pieces: Seq<RangeView>)
    requires
        run.is_run(ranges),
        splits(pieces, run.left.last()),
    ensures
        splits(run.groups.flatten() + pieces, ranges),
    decreases run.groups.len(),
{
    if run.groups.len() == 0 {
        assert(run.groups.flatten() + pieces =~= pieces);
    } else {
        let n = run.groups.len() - 1;
        let past = RangeGroupingRun {
            left: run.left.drop_last(),
            groups: run.groups.drop_last(),
            regions: run.regions.drop_last(),
        };
        assert forall|i: int| 0 <= i < past.groups.len() implies #[trigger] past.steps(i) by {
            assert(run.steps(i));
        }
        assert(run.steps(n));
        let last = run.groups[n];
        lemma_grouped_ranges_split(run.left[n], run.regions[n], pieces);
        lemma_grouping_splits(past, ranges, last + pieces);
        assert(run.groups =~= past.groups.push(last));
        past.groups.lemma_flatten_push(last);
        assert(run.groups.flatten() + pieces =~= past.groups.flatten() + (last + pieces));
    }
}

/// The groups, one after the other, and then the ranges that are left, are the ranges in their
/// order, some of them split at the ends of regions. So once no range is left, the groups hold just
/// the keys of the ranges. Each group holds only keys of its region.
pub proof fn law_the_groups_are_the_ranges_in_their_order(
    run: RangeGroupingRun,
    ranges: Seq<RangeView>,
    key: Seq<u8>,
)
    requires
        run.is_run(ranges),
    ensures
        splits(run.groups.flatten() + run.left.last(), ranges),
        run.left.last().len() == 0 ==> {
            &&& splits(run.groups.flatten(), ranges)
            &&& some_range_holds(run.groups.flatten(), key) <==> some_range_holds(ranges, key)
        },
        forall|i: int|
            0 <= i < run.groups.len() && some_range_holds(#[trigger] run.groups[i], key)
                ==> run.regions[i].contains(key),
{
    lemma_splits_itself(run.left.last());
    lemma_grouping_splits(run, ranges, run.left.last());
    if run.left.last().len() == 0 {
        assert(run.groups.flatten() + run.left.last() =~= run.groups.flatten());
        law_split_ranges_hold_the_same_keys(run.groups.flatten(), ranges, key);
    }
    assert forall|i: int|
        0 <= i < run.groups.len() && some_range_holds(#[trigger] run.groups[i], key) implies
        run.regions[i].contains(key) by {
        assert(run.steps(i));
        law_a_group_stays_in_its_region(run.left[i], run.regions[i], key);
    }
}

proof fn lemma_splits_itself(ranges: Seq<RangeView>)
    ensures
        splits(ranges, ranges),
    decreases ranges.len(),
{
    if ranges.len() > 0 {
        lemma_splits_itself(ranges.skip(1));
    }
}

} // verus!
