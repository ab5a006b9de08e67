//! How far a group reaches, and how far a walk goes.

use vstd::prelude::*;

use crate::kv::bound_range::{above, below, law_bounds_mean_their_keys, BoundRange};
use crate::kv::key::Key;
use crate::kv::order::{lemma_lex_not_lt, lex_le, lex_lt};
use crate::pd::groups::{
    group_len, grouped_ranges, joined_ranges, law_a_group_is_the_longest_run, range_views,
    reaches_beyond, KeyGroups, RangeGroups, RangeView, RangeWalk,
};
use crate::proto::kvrpcpb::KeyRange;
use crate::region::{RegionWithLeader, RegionWithLeaderView};
use crate::store::sending::is_within;

verus! {

/// The range of the region.
pub open spec fn range_of(region: RegionWithLeader) -> RangeView {
    (region.region.start_key@, region.region.end_key@)
}

/// A group takes the first key and goes on for as long as the keys lie in the region; the keys
/// behind it stay, in their order.
pub proof fn law_a_group_of_keys_is_as_long_as_can_be(region: &RegionWithLeader)
    ensures
        forall|left: &mut KeyGroups, group: Vec<Key>|
            left@.len() > 0 && #[trigger] call_ensures(
                KeyGroups::take_group,
                (left, region),
                group,
            ) ==> {
                &&& group@.len() > 0
                &&& group@ + final(left)@ == left@
                &&& forall|i: int|
                    1 <= i < group@.len() ==> is_within(
                        range_of(*region),
                        (#[trigger] group@[i])@,
                    )
                &&& final(left)@.len() > 0 ==> !is_within(
                    range_of(*region),
                    final(left)@[0]@,
                )
            },
{
    assert forall|left: &mut KeyGroups, group: Vec<Key>|
        left@.len() > 0 && #[trigger] call_ensures(
            KeyGroups::take_group,
            (left, region),
            group,
        ) implies {
        &&& group@.len() > 0
        &&& group@ + final(left)@ == left@
        &&& forall|i: int|
            1 <= i < group@.len() ==> is_within(range_of(*region), (#[trigger] group@[i])@)
        &&& final(left)@.len() > 0 ==> !is_within(range_of(*region), final(left)@[0]@)
    } by {
        let keys = left@;
        let n = group_len(keys, region@) as int;
        law_a_group_is_the_longest_run(keys, region@);
        assert(keys.take(n) + keys.skip(n) =~= keys);
        assert(region@.region.start_key == region.region.start_key@);
        assert(region@.region.end_key == region.region.end_key@);
        assert forall|i: int| 1 <= i < group@.len() implies is_within(
            range_of(*region),
            (#[trigger] group@[i])@,
        ) by {
            assert(group@[i] == keys[i]);
            assert(region@.contains(keys[i]@));
        }
        if n < keys.len() {
            assert(final(left)@[0] == keys[n]);
        }
    }
}

/// The key lies before the start or behind the end.
pub open spec fn starts_outside(key: Seq<u8>, start: Seq<u8>, end: Seq<u8>) -> bool {
    lex_lt(key, start) || lex_lt(end, key)
}

/// The end lies behind that of the region, if the region has one.
pub open spec fn ends_beyond(key: Seq<u8>, end: Seq<u8>) -> bool {
    end.len() > 0 && (key.len() == 0 || lex_lt(end, key))
}

/// The first ranges, none of which ends beyond the region, are the group, and the others are left,
/// the first of which starts outside the region.
pub open spec fn is_parted(
    ranges: Seq<RangeView>,
    group: Seq<RangeView>,
    left: Seq<RangeView>,
    start: Seq<u8>,
    end: Seq<u8>,
) -> bool {
    &&& group + left == ranges
    &&& left.len() > 0 ==> starts_outside(left[0].0, start, end)
    &&& forall|i: int| 0 <= i < group.len() ==> !ends_beyond((#[trigger] group[i]).1, end)
}

/// The last range of the group ends beyond the region, and is cut at its end. Its rest, and the
/// ranges behind it, are left.
pub open spec fn is_cut(
    ranges: Seq<RangeView>,
    group: Seq<RangeView>,
    left: Seq<RangeView>,
    end: Seq<u8>,
) -> bool {
    let n = group.len() as int;
    &&& 0 < n <= ranges.len()
    &&& ends_beyond(ranges[n - 1].1, end)
    &&& group == ranges.take(n - 1).push((ranges[n - 1].0, end))
    &&& left == seq![(end, ranges[n - 1].1)] + ranges.skip(n)
    &&& forall|i: int| 0 <= i < n - 1 ==> !ends_beyond((#[trigger] group[i]).1, end)
}

proof fn lemma_one_more(
    ranges: Seq<RangeView>,
    more: Seq<RangeView>,
    left: Seq<RangeView>,
    start: Seq<u8>,
    end: Seq<u8>,
)
    requires
        ranges.len() > 0,
        !ends_beyond(ranges[0].1, end),
        is_parted(ranges.skip(1), more, left, start, end) || is_cut(
            ranges.skip(1),
            more,
            left,
            end,
        ),
    ensures
        is_parted(ranges, seq![ranges[0]] + more, left, start, end) || is_cut(
            ranges,
            seq![ranges[0]] + more,
            left,
            end,
        ),
{
    let rest = ranges.skip(1);
    let group = seq![ranges[0]] + more;
    let n = group.len() as int;
    assert forall|i: int| 1 <= i < n implies group[i] == more[i - 1] by {}
    if is_parted(rest, more, left, start, end) {
        assert(group + left =~= seq![ranges[0]] + (more + left));
        assert(seq![ranges[0]] + rest =~= ranges);
    } else {
        assert(rest[n - 2] == ranges[n - 1]);
        assert(group =~= ranges.take(n - 1).push((ranges[n - 1].0, end)));
        assert(rest.skip(n - 1) =~= ranges.skip(n));
    }
}

proof fn lemma_joined(ranges: Seq<RangeView>, region: RegionWithLeaderView)
    ensures
        ({
            let (group, left) = joined_ranges(ranges, region);
            let (start, end) = (region.region.start_key, region.region.end_key);
            &&& is_parted(ranges, group, left, start, end) || is_cut(ranges, group, left, end)
            &&& forall|i: int|
                0 <= i < group.len() ==> !starts_outside((#[trigger] group[i]).0, start, end)
        }),
    decreases ranges.len(),
{
    let (start, end) = (region.region.start_key, region.region.end_key);
    let (group, left) = joined_ranges(ranges, region);
    if ranges.len() == 0 {
        assert(group + left =~= ranges);
    } else if starts_outside(ranges[0].0, start, end) {
        assert(group + left =~= ranges);
    } else if reaches_beyond(ranges[0].1, region) {
        assert(group =~= ranges.take(0).push((ranges[0].0, end)));
    } else {
        let (more, behind) = joined_ranges(ranges.skip(1), region);
        lemma_joined(ranges.skip(1), region);
        lemma_one_more(ranges, more, behind, start, end);
        assert forall|i: int| 0 <= i < group.len() implies !starts_outside(
            (#[trigger] group[i]).0,
            start,
            end,
        ) by {
            if i > 0 {
                assert(group[i] == more[i - 1]);
            }
        }
    }
}

/// A group of ranges goes on for as long as they start in the region, or at its end, and do not end
/// beyond it. One that does so closes the group: it is cut at the end of the region.
pub proof fn law_a_group_of_ranges_is_as_long_as_can_be(region: &RegionWithLeader)
    ensures
        forall|left: &mut RangeGroups, group: Vec<KeyRange>|
            left@.len() > 0 && #[trigger] call_ensures(
                RangeGroups::take_group,
                (left, region),
                group,
            ) ==> {
                let (start, end) = (region.region.start_key@, region.region.end_key@);
                let taken = range_views(group@);
                &&& taken.len() > 0
                &&& is_parted(left@, taken, final(left)@, start, end) || is_cut(
                    left@,
                    taken,
                    final(left)@,
                    end,
                )
                &&& forall|i: int|
                    1 <= i < taken.len() ==> !starts_outside((#[trigger] taken[i]).0, start, end)
            },
{
    assert forall|left: &mut RangeGroups, group: Vec<KeyRange>|
        left@.len() > 0 && #[trigger] call_ensures(
            RangeGroups::take_group,
            (left, region),
            group,
        ) implies {
        let (start, end) = (region.region.start_key@, region.region.end_key@);
        let taken = range_views(group@);
        &&& taken.len() > 0
        &&& is_parted(left@, taken, final(left)@, start, end) || is_cut(
            left@,
            taken,
            final(left)@,
            end,
        )
        &&& forall|i: int|
            1 <= i < taken.len() ==> !starts_outside((#[trigger] taken[i]).0, start, end)
    } by {
        let ranges = left@;
        let taken = range_views(group@);
        let (start, end) = (region.region.start_key@, region.region.end_key@);
        assert(region@.region.start_key == start);
        assert(region@.region.end_key == end);
        assert((taken, final(left)@) == grouped_ranges(ranges, region@));
        if reaches_beyond(ranges[0].1, region@) {
            assert(taken =~= ranges.take(0).push((ranges[0].0, end)));
        } else {
            let (more, behind) = joined_ranges(ranges.skip(1), region@);
            lemma_joined(ranges.skip(1), region@);
            lemma_one_more(ranges, more, behind, start, end);
            assert forall|i: int| 1 <= i < taken.len() implies !starts_outside(
                (#[trigger] taken[i]).0,
                start,
                end,
            ) by {
                assert(taken[i] == more[i - 1]);
            }
        }
    }
}

/// The groups begin with the first key, and all that was given is to be grouped.
pub proof fn law_grouping_begins_with_the_first(
    keys: Vec<Key>,
    key_groups: KeyGroups,
    next_key: Option<&Key>,
    ranges: Vec<KeyRange>,
    range_groups: RangeGroups,
    next_start: Option<Key>,
)
    requires
        call_ensures(KeyGroups::new, (keys,), key_groups),
        call_ensures(KeyGroups::next_key, (&key_groups,), next_key),
        call_ensures(RangeGroups::new, (ranges,), range_groups),
        call_ensures(RangeGroups::next_key, (&range_groups,), next_start),
    ensures
        key_groups@ == keys@,
        next_key is Some <==> keys@.len() > 0,
        next_key is Some ==> *next_key->0 == keys@[0],
        range_groups@.len() == ranges@.len(),
        forall|i: int|
            0 <= i < ranges@.len() ==> (#[trigger] range_groups@[i]) == (
                ranges@[i].start_key@,
                ranges@[i].end_key@,
            ),
        next_start is Some <==> ranges@.len() > 0,
        next_start is Some ==> next_start->0@ == ranges@[0].start_key@,
{
    if ranges@.len() > 0 {
        assert(range_groups@[0] == (ranges@[0].start_key@, ranges@[0].end_key@));
    }
}

/// A walk begins with all keys of its range, where an upper end that is the empty key counts as
/// none.
pub proof fn law_a_walk_begins_with_its_range(range: BoundRange, r: RangeWalk, key: Seq<u8>)
    requires
        call_ensures(RangeWalk::new, (range,), r),
    ensures
        r.start is Some,
        lex_le(r.start->0@, key) <==> above(range.from.bytes(), key),
        r.end is None <==> range.to is Unbounded,
        r.end is Some ==> (lex_lt(key, r.end->0@) <==> below(range.to.bytes(), key)),
{
    law_bounds_mean_their_keys(range.from.bytes(), range.to.bytes(), key);
}

/// A walk is over behind the last region, and behind one that reaches to the end of the range;
/// else it goes on where the region ends.
pub proof fn law_a_walk_goes_on_where_a_region_ends(region: &RegionWithLeader)
    ensures
        forall|walk: &mut RangeWalk| #[trigger]
            call_ensures(RangeWalk::advance, (walk, region), ()) ==> {
                let region_end = region.region.end_key@;
                let reached = walk.end is Some && walk.end->0@.len() > 0 && !lex_lt(
                    region_end,
                    walk.end->0@,
                );
                &&& final(walk).start is None <==> region_end.len() == 0 || reached
                &&& final(walk).start is Some ==> final(walk).start->0@ == region_end
                &&& final(walk).end == walk.end
            },
{
    assert forall|walk: &mut RangeWalk| #[trigger]
        call_ensures(RangeWalk::advance, (walk, region), ()) implies {
        let region_end = region.region.end_key@;
        let reached = walk.end is Some && walk.end->0@.len() > 0 && !lex_lt(
            region_end,
            walk.end->0@,
        );
        &&& final(walk).start is None <==> region_end.len() == 0 || reached
        &&& final(walk).start is Some ==> final(walk).start->0@ == region_end
        &&& final(walk).end == walk.end
    } by {
        assert(region@.region.end_key == region.region.end_key@);
        if walk.end is Some {
            lemma_lex_not_lt(region.region.end_key@, walk.end->0@);
        }
    }
}

} // verus!
