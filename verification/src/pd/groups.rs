//! Keys and ranges, grouped by the regions that they lie in.

use vstd::prelude::*;

use crate::common::vectors::reversed;
use crate::kv::bound_range::{end_of, start_of, BoundRange};
use crate::kv::key::Key;
use crate::kv::order::{
    bytes_le, bytes_lt, bytes_to_vec, in_key_range, lemma_lex_chain, lemma_lex_not_lt, lex_le,
    lex_lt,
};
use crate::proto::kvrpcpb::KeyRange;
use crate::region::{RegionWithLeader, RegionWithLeaderView};

verus! {

/// The number of keys at the front that lie in a region.
pub open spec fn run_in_region(keys: Seq<Key>, region: RegionWithLeaderView) -> nat
    decreases keys.len(),
{
    if keys.len() == 0 || !region.contains(keys[0]@) {
        0
    } else {
        1 + run_in_region(keys.skip(1), region)
    }
}

/// The keys that go into the group of the first one: the first one itself, and those right behind
/// it that lie in its region.
pub open spec fn group_len(keys: Seq<Key>, region: RegionWithLeaderView) -> nat {
    1 + run_in_region(keys.skip(1), region)
}

proof fn lemma_run_in_region(keys: Seq<Key>, region: RegionWithLeaderView)
    ensures
        run_in_region(keys, region) <= keys.len(),
        forall|i: int|
            0 <= i < run_in_region(keys, region) ==> region.contains(#[trigger] keys[i]@),
        run_in_region(keys, region) < keys.len() ==> !region.contains(
            keys[run_in_region(keys, region) as int]@,
        ),
    decreases keys.len(),
{
    if keys.len() > 0 && region.contains(keys[0]@) {
        let rest = keys.skip(1);
        lemma_run_in_region(rest, region);
        assert forall|i: int| 0 <= i < run_in_region(keys, region) implies region.contains(
            #[trigger] keys[i]@,
        ) by {
            if i > 0 {
                assert(keys[i] == rest[i - 1]);
            }
        }
    }
}

/// A group holds at least the first key, all its other keys lie in the region, and the key behind
/// it does not.
pub proof fn law_a_group_is_the_longest_run(keys: Seq<Key>, region: RegionWithLeaderView)
    requires
        keys.len() > 0,
    ensures
        1 <= group_len(keys, region) <= keys.len(),
        forall|i: int| 1 <= i < group_len(keys, region) ==> region.contains(#[trigger] keys[i]@),
        group_len(keys, region) < keys.len() ==> !region.contains(
            keys[group_len(keys, region) as int]@,
        ),
{
    let rest = keys.skip(1);
    lemma_run_in_region(rest, region);
    assert forall|i: int| 1 <= i < group_len(keys, region) implies region.contains(
        #[trigger] keys[i]@,
    ) by {
        assert(keys[i] == rest[i - 1]);
    }
}

/// Keys that are still to be grouped.
#[derive(Debug)]
pub struct KeyGroups {
    /// The keys, the last one first.
    pub reversed: Vec<Key>,
}

impl View for KeyGroups {
    type V = Seq<Key>;

    open spec fn view(&self) -> Seq<Key> {
        self.reversed@.reverse()
    }
}

impl KeyGroups {
    /// The given keys, in their order.
    pub fn new(keys: Vec<Key>) -> (r: KeyGroups)
        ensures
            r@ == keys@,
    {
        let ghost input = keys@;
        let r = KeyGroups { reversed: reversed(keys) };
        assert(r@ =~= input);
        r
    }

    /// The key whose region the next group is for.
    pub fn next_key(&self) -> (r: Option<&Key>)
        ensures
            r == (if self@.len() == 0 {
                None
            } else {
                Some(&self@[0])
            }),
    {
        if self.reversed.len() == 0 {
            None
        } else {
            Some(&self.reversed[self.reversed.len() - 1])
        }
    }

    /// Take the group of the next key, whose region is given.
    pub fn take_group(&mut self, region: &RegionWithLeader) -> (r: Vec<Key>)
        requires
            old(self)@.len() > 0,
        ensures
            r@ == old(self)@.take(group_len(old(self)@, region@) as int),
            final(self)@ == old(self)@.skip(group_len(old(self)@, region@) as int),
    {
        let ghost keys = self@;
        let ghost view = region@;
        let mut grouped: Vec<Key> = Vec::new();
        proof {
            law_a_group_is_the_longest_run(keys, view);
            assert(keys.take(0) =~= Seq::<Key>::empty());
            assert(keys.skip(0) =~= keys);
        }
        let mut more = true;
        while more
            invariant
                view == region@,
                keys.len() > 0,
                grouped@.len() <= group_len(keys, view) <= keys.len(),
                grouped@ == keys.take(grouped@.len() as int),
                self@ == keys.skip(grouped@.len() as int),
                more ==> grouped@.len() < group_len(keys, view),
                !more ==> grouped@.len() == group_len(keys, view),
                forall|i: int| 1 <= i < group_len(keys, view) ==> view.contains(#[trigger] keys[i]@),
                group_len(keys, view) < keys.len() ==> !view.contains(
                    keys[group_len(keys, view) as int]@,
                ),
            decreases self.reversed@.len(), (if more { 1int } else { 0int }),
        {
            let ghost n = grouped@.len() as int;
            let ghost before = self@;
            assert(before[0] == keys[n]);
            match self.reversed.pop() {
                Some(key) => {
                    assert(key == before[0]);
                    grouped.push(key);
                    assert(self@ =~= before.skip(1));
                    assert(before.skip(1) =~= keys.skip(n + 1));
                    assert(keys.take(n + 1) =~= keys.take(n).push(keys[n]));
                },
                None => {},
            }
            more = match self.next_key() {
                Some(key) => region.contains(key),
                None => false,
            };
            proof {
                if n + 1 < keys.len() {
                    assert(self@[0] == keys[n + 1]);
                }
            }
        }
        grouped
    }
}

/// A walk over the regions of a range.
#[derive(Debug)]
pub struct RangeWalk {
    /// The key from which on the range is still to be walked, unless all of it has been.
    pub start: Option<Key>,
    /// The end of the range, which is that of the key space if it is empty or missing.
    pub end: Option<Key>,
}

/// The key lies before the end.
pub open spec fn before_end(end: Option<Key>, key: Seq<u8>) -> bool {
    end is Some && end->0@.len() > 0 ==> lex_lt(key, end->0@)
}

/// The key at which a walk goes on behind a region, if the region is not the last one.
pub open spec fn walk_on(region_end: Seq<u8>, end: Option<Key>) -> Option<Seq<u8>> {
    if region_end.len() == 0 || (end is Some && end->0@.len() > 0 && lex_le(end->0@, region_end)) {
        None
    } else {
        Some(region_end)
    }
}

impl RangeWalk {
    /// The key is still to be walked over.
    pub open spec fn covers(self, key: Seq<u8>) -> bool {
        self.start is Some && lex_le(self.start->0@, key) && before_end(self.end, key)
    }

    /// All of the range is still to be walked over.
    pub open spec fn is_at_start_of(self, range: BoundRange) -> bool {
        &&& self.start is Some && self.start->0@ == start_of(range.from.bytes())
        &&& self.end is Some <==> end_of(range.to.bytes()) is Some
        &&& self.end is Some ==> self.end->0@ == end_of(range.to.bytes())->0
    }

    /// `after` is the walk behind the region that holds the start.
    pub open spec fn advances(self, region: RegionWithLeaderView, after: RangeWalk) -> bool {
        &&& after.end == self.end
        &&& match walk_on(region.region.end_key, self.end) {
            Some(start) => after.start is Some && after.start->0@ == start,
            None => after.start is None,
        }
    }

    /// A walk over all of a range.
    pub fn new(range: BoundRange) -> (r: RangeWalk)
        ensures
            r.is_at_start_of(range),
    {
        let (start, end) = range.into_keys();
        RangeWalk { start: Some(start), end }
    }

    /// Go on behind the region that holds the start.
    pub fn advance(&mut self, region: &RegionWithLeader)
        ensures
            old(self).advances(region@, *final(self)),
    {
        let region_end = region.end_key();
        let last = match &self.end {
            Some(end) => !end.is_empty() && bytes_le(&end.0, &region_end.0),
            None => false,
        };
        self.start = if last || region_end.is_empty() {
            None
        } else {
            Some(region_end)
        };
    }
}

/// A step of a walk leaves out no key: what was still to be walked over lies in the region of the
/// step, or still is to be walked over.
pub proof fn law_a_walk_leaves_out_no_key(
    before: RangeWalk,
    after: RangeWalk,
    region: RegionWithLeaderView,
    key: Seq<u8>,
)
    requires
        before.start is Some,
        region.contains(before.start->0@),
        before.advances(region, after),
        before.covers(key),
    ensures
        region.contains(key) || after.covers(key),
{
    let start = before.start->0@;
    let region_end = region.region.end_key;
    lemma_lex_chain(region.region.start_key, start, key);
    lemma_lex_not_lt(key, region_end);
    if before.end is Some {
        lemma_lex_chain(key, before.end->0@, region_end);
    }
}

/// A walk goes forward: the key at which it goes on lies behind the one before.
pub proof fn law_a_walk_goes_forward(before: RangeWalk, region: RegionWithLeaderView)
    requires
        before.start is Some,
        region.contains(before.start->0@),
        walk_on(region.region.end_key, before.end) is Some,
    ensures
        lex_lt(before.start->0@, walk_on(region.region.end_key, before.end)->0),
{
}

/// What a range of keys holds.
pub type RangeView = (Seq<u8>, Seq<u8>);

/// What ranges of keys hold.
pub open spec fn range_views(ranges: Seq<KeyRange>) -> Seq<RangeView> {
    ranges.map_values(|range: KeyRange| (range.start_key@, range.end_key@))
}

/// A range of keys.
pub fn make_key_range(start_key: Vec<u8>, end_key: Vec<u8>) -> (r: KeyRange)
    ensures
        r.start_key == start_key,
        r.end_key == end_key,
{
    KeyRange { start_key, end_key }
}

/// A range that starts in a region reaches beyond its end.
pub open spec fn reaches_beyond(end: Seq<u8>, region: RegionWithLeaderView) -> bool {
    let region_end = region.region.end_key;
    region_end.len() > 0 && (lex_lt(region_end, end) || end.len() == 0)
}

/// The ranges that go to a region, and those that are left, given the first range, which starts in
/// the region. A range that reaches beyond the region is split at its end, which closes the
/// group.
pub open spec fn grouped_ranges(ranges: Seq<RangeView>, region: RegionWithLeaderView) -> (
    Seq<RangeView>,
    Seq<RangeView>,
)
    decreases ranges.len(),
{
    let region_end = region.region.end_key;
    if ranges.len() == 0 {
        (Seq::empty(), Seq::empty())
    } else if reaches_beyond(ranges[0].1, region) {
        (seq![(ranges[0].0, region_end)], seq![(region_end, ranges[0].1)] + ranges.skip(1))
    } else {
        let (more, left) = joined_ranges(ranges.skip(1), region);
        (seq![ranges[0]] + more, left)
    }
}

/// The ranges that join the group of a region, and those that are left. A range joins if it
/// starts in the region or at its end.
pub open spec fn joined_ranges(ranges: Seq<RangeView>, region: RegionWithLeaderView) -> (
    Seq<RangeView>,
    Seq<RangeView>,
)
    decreases ranges.len(),
{
    let region_end = region.region.end_key;
    if ranges.len() == 0 {
        (Seq::empty(), Seq::empty())
    } else if lex_lt(ranges[0].0, region.region.start_key) || lex_lt(region_end, ranges[0].0) {
        (Seq::empty(), ranges)
    } else if reaches_beyond(ranges[0].1, region) {
        (seq![(ranges[0].0, region_end)], seq![(region_end, ranges[0].1)] + ranges.skip(1))
    } else {
        let (more, left) = joined_ranges(ranges.skip(1), region);
        (seq![ranges[0]] + more, left)
    }
}

/// Ranges that are still to be grouped.
#[derive(Debug)]
pub struct RangeGroups {
    /// The ranges, the last one first.
    pub reversed: Vec<KeyRange>,
}

impl View for RangeGroups {
    type V = Seq<RangeView>;

    open spec fn view(&self) -> Seq<RangeView> {
        range_views(self.reversed@).reverse()
    }
}

impl RangeGroups {
    /// The given ranges, in their order.
    pub fn new(ranges: Vec<KeyRange>) -> (r: RangeGroups)
        ensures
            r@ == range_views(ranges@),
    {
        let ghost input = ranges@;
        let r = RangeGroups { reversed: reversed(ranges) };
        assert(r@ =~= range_views(input));
        r
    }

    /// The key whose region the next group is for.
    pub fn next_key(&self) -> (r: Option<Key>)
        ensures
            r is Some <==> self@.len() > 0,
            r is Some ==> r->0@ == self@[0].0,
    {
        if self.reversed.len() == 0 {
            None
        } else {
            Some(Key(bytes_to_vec(&self.reversed[self.reversed.len() - 1].start_key)))
        }
    }

    /// Split a range at the end of a region, and put the rest back.
    fn split(&mut self, range: KeyRange, region: &RegionWithLeader) -> (r: KeyRange)
        ensures
            (r.start_key@, r.end_key@) == (range.start_key@, region@.region.end_key),
            final(self)@ == seq![(region@.region.end_key, range.end_key@)] + old(self)@,
    {
        let ghost before = self@;
        let rest = make_key_range(bytes_to_vec(&region.region.end_key), range.end_key);
        self.reversed.push(rest);
        assert(self@ =~= seq![(rest.start_key@, rest.end_key@)] + before);
        make_key_range(range.start_key, bytes_to_vec(&region.region.end_key))
    }

    /// Take the group of the next range, the region of whose start is given.
    #[verifier::loop_isolation(false)]
    pub fn take_group(&mut self, region: &RegionWithLeader) -> (r: Vec<KeyRange>)
        ensures
            (range_views(r@), final(self)@) == grouped_ranges(old(self)@, region@),
    {
        let ghost view = region@;
        let ghost ranges = self@;
        let mut grouped: Vec<KeyRange> = Vec::new();
        let range = match self.reversed.pop() {
            Some(range) => range,
            None => {
                assert(range_views(grouped@) =~= Seq::<RangeView>::empty());
                assert(self@ =~= Seq::<RangeView>::empty());
                return grouped;
            },
        };
        assert(ranges[0] == (range.start_key@, range.end_key@));
        assert(self@ =~= ranges.skip(1));
        let beyond = region.region.end_key.len() > 0 && (bytes_lt(
            &region.region.end_key,
            &range.end_key,
        ) || range.end_key.len() == 0);
        if beyond {
            let part = self.split(range, region);
            grouped.push(part);
            assert(range_views(grouped@) =~= seq![(part.start_key@, part.end_key@)]);
            return grouped;
        }
        grouped.push(range);
        assert(range_views(grouped@) =~= seq![ranges[0]]);
        let ghost rest = ranges.skip(1);
        let ghost goal = joined_ranges(rest, view);
        assert(seq![ranges[0]] + goal.0 =~= range_views(grouped@) + goal.0);
        while self.reversed.len() > 0
            invariant
                ({
                    let (more, left) = joined_ranges(self@, view);
                    range_views(grouped@) + more == seq![ranges[0]] + goal.0 && left == goal.1
                }),
            decreases self.reversed@.len(),
        {
            let ghost before = self@;
            let ghost got = range_views(grouped@);
            let range = match self.reversed.pop() {
                Some(range) => range,
                None => {
                    return grouped;
                },
            };
            assert(before[0] == (range.start_key@, range.end_key@));
            assert(self@ =~= before.skip(1));
            if bytes_lt(&range.start_key, &region.region.start_key) || bytes_lt(
                &region.region.end_key,
                &range.start_key,
            ) {
                self.reversed.push(range);
                assert(self@ =~= before);
                assert(got + Seq::<RangeView>::empty() =~= got);
                return grouped;
            }
            let beyond = region.region.end_key.len() > 0 && (bytes_lt(
                &region.region.end_key,
                &range.end_key,
            ) || range.end_key.len() == 0);
            if beyond {
                let part = self.split(range, region);
                grouped.push(part);
                assert(range_views(grouped@) =~= got + seq![(part.start_key@, part.end_key@)]);
                return grouped;
            }
            grouped.push(range);
            proof {
                let (more, left) = joined_ranges(before.skip(1), view);
                assert(range_views(grouped@) =~= got.push(before[0]));
                assert(got + (seq![before[0]] + more) =~= range_views(grouped@) + more);
            }
        }
        assert(self@ =~= Seq::<RangeView>::empty());
        assert(range_views(grouped@) + Seq::<RangeView>::empty() =~= range_views(grouped@));
        grouped
    }
}

/// Some of the ranges holds the key.
pub open spec fn some_range_holds(ranges: Seq<RangeView>, key: Seq<u8>) -> bool {
    exists|i: int| 0 <= i < ranges.len() && in_key_range(#[trigger] ranges[i].0, ranges[i].1, key)
}

/// Splitting a range at a key loses no key and adds none.
pub(crate) proof fn lemma_split(start: Seq<u8>, at: Seq<u8>, end: Seq<u8>, key: Seq<u8>)
    requires
        at.len() > 0,
        lex_le(start, at),
        lex_lt(at, end) || end.len() == 0,
    ensures
        in_key_range(start, end, key) <==> in_key_range(start, at, key) || in_key_range(
            at,
            end,
            key,
        ),
{
    lemma_lex_not_lt(key, at);
    lemma_lex_chain(start, at, key);
    lemma_lex_chain(key, at, end);
}

proof fn lemma_holds_in_either(a: Seq<RangeView>, b: Seq<RangeView>, key: Seq<u8>)
    ensures
        some_range_holds(a + b, key) <==> some_range_holds(a, key) || some_range_holds(b, key),
{
    let both = a + b;
    if some_range_holds(both, key) {
        let i = choose|i: int|
            0 <= i < both.len() && in_key_range(#[trigger] both[i].0, both[i].1, key);
        if i < a.len() {
            assert(a[i] == both[i]);
        } else {
            assert(b[i - a.len()] == both[i]);
        }
    }
    if some_range_holds(a, key) {
        let i = choose|i: int| 0 <= i < a.len() && in_key_range(#[trigger] a[i].0, a[i].1, key);
        assert(both[i] == a[i]);
    }
    if some_range_holds(b, key) {
        let i = choose|i: int| 0 <= i < b.len() && in_key_range(#[trigger] b[i].0, b[i].1, key);
        assert(both[i + a.len()] == b[i]);
    }
}

proof fn lemma_one_range_holds(range: RangeView, key: Seq<u8>)
    ensures
        some_range_holds(seq![range], key) <==> in_key_range(range.0, range.1, key),
{
    let ranges = seq![range];
    assert(ranges[0] == range);
}

pub(crate) proof fn lemma_first_and_rest(ranges: Seq<RangeView>, key: Seq<u8>)
    requires
        ranges.len() > 0,
    ensures
        some_range_holds(ranges, key) <==> in_key_range(ranges[0].0, ranges[0].1, key)
            || some_range_holds(ranges.skip(1), key),
{
    assert(ranges =~= seq![ranges[0]] + ranges.skip(1));
    lemma_holds_in_either(seq![ranges[0]], ranges.skip(1), key);
    lemma_one_range_holds(ranges[0], key);
}

proof fn lemma_split_first(ranges: Seq<RangeView>, at: Seq<u8>, key: Seq<u8>)
    requires
        ranges.len() > 0,
        at.len() > 0,
        lex_le(ranges[0].0, at),
        lex_lt(at, ranges[0].1) || ranges[0].1.len() == 0,
    ensures
        some_range_holds(ranges, key) <==> some_range_holds(seq![(ranges[0].0, at)], key)
            || some_range_holds(seq![(at, ranges[0].1)] + ranges.skip(1), key),
{
    lemma_first_and_rest(ranges, key);
    lemma_split(ranges[0].0, at, ranges[0].1, key);
    lemma_one_range_holds((ranges[0].0, at), key);
    lemma_one_range_holds((at, ranges[0].1), key);
    lemma_holds_in_either(seq![(at, ranges[0].1)], ranges.skip(1), key);
}

proof fn lemma_joining_loses_no_key(
    ranges: Seq<RangeView>,
    region: RegionWithLeaderView,
    key: Seq<u8>,
)
    ensures
        ({
            let (more, left) = joined_ranges(ranges, region);
            some_range_holds(ranges, key) <==> some_range_holds(more, key) || some_range_holds(
                left,
                key,
            )
        }),
    decreases ranges.len(),
{
    let region_end = region.region.end_key;
    if ranges.len() > 0 && !lex_lt(ranges[0].0, region.region.start_key) && !lex_lt(
        region_end,
        ranges[0].0,
    ) {
        if reaches_beyond(ranges[0].1, region) {
            lemma_lex_not_lt(region_end, ranges[0].0);
            lemma_split_first(ranges, region_end, key);
        } else {
            let (more, left) = joined_ranges(ranges.skip(1), region);
            lemma_joining_loses_no_key(ranges.skip(1), region, key);
            lemma_first_and_rest(ranges, key);
            lemma_holds_in_either(seq![ranges[0]], more, key);
            lemma_one_range_holds(ranges[0], key);
        }
    }
}

/// Grouping loses no key and adds none: a key lies in one of the ranges exactly if it lies in one
/// of the group or in one of those that are left.
pub proof fn law_grouping_loses_no_key(
    ranges: Seq<RangeView>,
    region: RegionWithLeaderView,
    key: Seq<u8>,
)
    requires
        ranges.len() > 0 ==> region.contains(ranges[0].0),
    ensures
        ({
            let (group, left) = grouped_ranges(ranges, region);
            some_range_holds(ranges, key) <==> some_range_holds(group, key) || some_range_holds(
                left,
                key,
            )
        }),
{
    if ranges.len() > 0 {
        let region_end = region.region.end_key;
        if reaches_beyond(ranges[0].1, region) {
            lemma_split_first(ranges, region_end, key);
        } else {
            let (more, left) = joined_ranges(ranges.skip(1), region);
            lemma_joining_loses_no_key(ranges.skip(1), region, key);
            lemma_first_and_rest(ranges, key);
            lemma_holds_in_either(seq![ranges[0]], more, key);
            lemma_one_range_holds(ranges[0], key);
        }
    }
}

/// Whatever key a range holds lies in the region.
pub open spec fn stays_in(range: RangeView, region: RegionWithLeaderView) -> bool {
    forall|key: Seq<u8>| #[trigger]
        in_key_range(range.0, range.1, key) ==> region.contains(key)
}

proof fn lemma_stays_in(range: RangeView, region: RegionWithLeaderView)
    requires
        !lex_lt(range.0, region.region.start_key),
        !reaches_beyond(range.1, region),
    ensures
        stays_in(range, region),
{
    assert forall|key: Seq<u8>| #[trigger] in_key_range(range.0, range.1, key) implies region.contains(
        key,
    ) by {
        lemma_lex_not_lt(range.0, region.region.start_key);
        lemma_lex_chain(region.region.start_key, range.0, key);
        lemma_lex_not_lt(region.region.end_key, range.1);
        lemma_lex_chain(key, range.1, region.region.end_key);
    }
}

proof fn lemma_joined_ranges_stay_in(ranges: Seq<RangeView>, region: RegionWithLeaderView)
    ensures
        forall|i: int|
            0 <= i < joined_ranges(ranges, region).0.len() ==> stays_in(
                #[trigger] joined_ranges(ranges, region).0[i],
                region,
            ),
    decreases ranges.len(),
{
    let region_end = region.region.end_key;
    if ranges.len() > 0 && !lex_lt(ranges[0].0, region.region.start_key) && !lex_lt(
        region_end,
        ranges[0].0,
    ) {
        if reaches_beyond(ranges[0].1, region) {
            crate::kv::order::lemma_lex_irreflexive(region_end);
            lemma_stays_in((ranges[0].0, region_end), region);
        } else {
            let rest = ranges.skip(1);
            lemma_joined_ranges_stay_in(rest, region);
            lemma_stays_in(ranges[0], region);
            assert forall|i: int| 0 <= i < joined_ranges(ranges, region).0.len() implies stays_in(
                #[trigger] joined_ranges(ranges, region).0[i],
                region,
            ) by {
                if i > 0 {
                    assert(joined_ranges(ranges, region).0[i] == joined_ranges(rest, region).0[i
                        - 1]);
                }
            }
        }
    }
}

/// The ranges of a group hold only keys of its region.
pub proof fn law_a_group_stays_in_its_region(
    ranges: Seq<RangeView>,
    region: RegionWithLeaderView,
    key: Seq<u8>,
)
    requires
        ranges.len() > 0 ==> region.contains(ranges[0].0),
        some_range_holds(grouped_ranges(ranges, region).0, key),
    ensures
        region.contains(key),
{
    if ranges.len() > 0 {
        let region_end = region.region.end_key;
        let group = grouped_ranges(ranges, region).0;
        let i = choose|i: int|
            0 <= i < group.len() && in_key_range(#[trigger] group[i].0, group[i].1, key);
        lemma_lex_not_lt(ranges[0].0, region.region.start_key);
        if reaches_beyond(ranges[0].1, region) {
            crate::kv::order::lemma_lex_irreflexive(region_end);
            lemma_stays_in((ranges[0].0, region_end), region);
        } else {
            lemma_joined_ranges_stay_in(ranges.skip(1), region);
            lemma_stays_in(ranges[0], region);
            if i > 0 {
                assert(group[i] == joined_ranges(ranges.skip(1), region).0[i - 1]);
            }
        }
    }
}

} // verus!
