//! What holds of the region cache as a whole.

use vstd::prelude::*;

use crate::kv::order::{
    lemma_lex_chain, lemma_lex_irreflexive, lemma_lex_not_lt, lemma_lex_total, lex_le, lex_lt,
};
use crate::proto::metapb::Buckets;
use crate::region::{RegionId, RegionVerId, RegionWithLeaderView};
use crate::region_cache::map::{
    before_end, buckets_view, lemma_floor_unique, CacheModel, CachedRegion, RegionLoadResult,
};
use crate::region_cache::maps::is_floor;
use crate::region_cache::ttl::RegionCacheTtl;

verus! {

/// The region holds at least one key.
pub open spec fn valid_range(region: RegionWithLeaderView) -> bool {
    before_end(region.region.start_key, region.region.end_key)
}

/// The two regions have keys in common, if both are valid.
pub open spec fn overlap(a: RegionWithLeaderView, b: RegionWithLeaderView) -> bool {
    before_end(a.region.start_key, b.region.end_key) && before_end(
        b.region.start_key,
        a.region.end_key,
    )
}

impl CacheModel {
    /// Each region is found under its identity, its start key and its id.
    pub open spec fn indexes(self, ver_id: RegionVerId) -> bool {
        let region = self.regions[ver_id].region@;
        &&& region.ver_id() == ver_id
        &&& valid_range(region)
        &&& self.starts.contains_key(region.region.start_key)
        &&& self.starts[region.region.start_key] == ver_id
        &&& self.ids.contains_key(region.region.id)
        &&& self.ids[region.region.id] == ver_id
    }

    /// The parts of the index agree with each other, and no two regions intersect.
    pub open spec fn consistent(self) -> bool {
        &&& forall|v: RegionVerId| #[trigger] self.regions.contains_key(v) ==> self.indexes(v)
        &&& forall|k: Seq<u8>| #[trigger]
            self.starts.contains_key(k) ==> self.regions.contains_key(self.starts[k])
                && self.regions[self.starts[k]].region@.region.start_key == k
        &&& forall|id: RegionId| #[trigger]
            self.ids.contains_key(id) ==> self.regions.contains_key(self.ids[id])
                && self.regions[self.ids[id]].region@.region.id == id
        &&& forall|v: RegionVerId, w: RegionVerId|
            #![trigger self.regions.contains_key(v), self.regions.contains_key(w)]
            self.regions.contains_key(v) && self.regions.contains_key(w) && v != w ==> !overlap(
                self.regions[v].region@,
                self.regions[w].region@,
            )
    }

    /// A region can be added without harm: it holds a key, and if the same version of it is
    /// cached, that one has the same range.
    pub open spec fn accepts(self, region: RegionWithLeaderView) -> bool {
        &&& valid_range(region)
        &&& self.regions.contains_key(region.ver_id()) ==> {
            let cached = self.regions[region.ver_id()].region@.region;
            &&& cached.start_key == region.region.start_key
            &&& cached.end_key == region.region.end_key
        }
    }
}

/// Two valid regions have a key in common exactly if they overlap.
pub proof fn law_overlap_is_a_common_key(a: RegionWithLeaderView, b: RegionWithLeaderView)
    requires
        valid_range(a),
        valid_range(b),
    ensures
        overlap(a, b) <==> exists|key: Seq<u8>| a.contains(key) && b.contains(key),
{
    let (sa, sb) = (a.region.start_key, b.region.start_key);
    if overlap(a, b) {
        lemma_lex_total(sa, sb);
        let key = if lex_lt(sa, sb) {
            sb
        } else {
            sa
        };
        assert(a.contains(key) && b.contains(key));
    }
    if exists|key: Seq<u8>| a.contains(key) && b.contains(key) {
        let key = choose|key: Seq<u8>| a.contains(key) && b.contains(key);
        lemma_lex_chain(sa, key, b.region.end_key);
        lemma_lex_chain(sb, key, a.region.end_key);
    }
}

/// Every cached region that overlaps the new one gives way to it, and of the others only an older
/// version of it does.
proof fn lemma_drops_overlapping(
    model: CacheModel,
    region: RegionWithLeaderView,
    ver_id: RegionVerId,
)
    requires
        model.consistent(),
        model.regions.contains_key(ver_id),
    ensures
        model.drops_region(region, ver_id) <==> overlap(model.regions[ver_id].region@, region) || (
        model.regions[ver_id].region@.region.id == region.region.id && ver_id != region.ver_id()),
{
    let cached = model.regions[ver_id].region@;
    assert(model.indexes(ver_id));
    let key = cached.region.start_key;
    if overlap(cached, region) {
        assert forall|other: Seq<u8>| #[trigger]
            model.starts.contains_key(other) && before_end(other, region.region.end_key) && lex_le(
                key,
                other,
            ) && model.regions.contains_key(model.starts[other]) implies before_end(
            region.region.start_key,
            model.regions[model.starts[other]].region@.region.end_key,
        ) by {
            let w = model.starts[other];
            let next = model.regions[w].region@;
            assert(model.indexes(w));
            if w != ver_id {
                assert(!overlap(cached, next));
                if !before_end(region.region.start_key, next.region.end_key) {
                    // The region ends before the other one starts, so before the new one.
                    assert(other == next.region.start_key);
                    lemma_lex_chain(key, other, next.region.end_key);
                    assert(!before_end(next.region.start_key, cached.region.end_key));
                    lemma_lex_not_lt(other, cached.region.end_key);
                    lemma_lex_not_lt(region.region.start_key, next.region.end_key);
                    lemma_lex_chain(region.region.start_key, cached.region.end_key, other);
                    lemma_lex_chain(region.region.start_key, other, next.region.end_key);
                }
            }
        }
        assert(model.reaches(region, key));
    }
    if exists|k: Seq<u8>| #[trigger] model.reaches(region, k) && model.starts[k] == ver_id {
        let k = choose|k: Seq<u8>| #[trigger]
            model.reaches(region, k) && model.starts[k] == ver_id;
        assert(k == key);
        assert(lex_le(k, k));
    }
}

/// Adding a region keeps the cache consistent; in particular no two cached regions intersect.
pub proof fn law_adding_keeps_the_cache_consistent(model: CacheModel, cached: CachedRegion)
    requires
        model.consistent(),
        model.accepts(cached.region@),
    ensures
        model.added(cached).consistent(),
{
    let region = cached.region@;
    let ver_id = region.ver_id();
    let after = model.added(cached);

    assert forall|v: RegionVerId| #[trigger]
        after.regions.contains_key(v) && v != ver_id implies model.regions.contains_key(v)
        && after.regions[v] == model.regions[v] && !overlap(model.regions[v].region@, region)
        && model.regions[v].region@.region.id != region.region.id by {
        lemma_drops_overlapping(model, region, v);
        assert(!model.drops_region(region, v));
        assert(model.indexes(v));
    }
    if model.regions.contains_key(ver_id) {
        lemma_drops_overlapping(model, region, ver_id);
        assert(model.drops_region(region, ver_id));
        assert(model.indexes(ver_id));
    }
    assert forall|v: RegionVerId| #[trigger] after.regions.contains_key(v) implies after.indexes(
        v,
    ) by {
        if v != ver_id {
            let other = model.regions[v].region@;
            assert(model.indexes(v));
            assert(!model.drops_region(region, v));
            assert(!model.drops_start(region, other.region.start_key)) by {
                if exists|w: RegionVerId| #[trigger]
                    model.drops_region(region, w) && model.regions[w].region@.region.start_key
                        == other.region.start_key {
                    let w = choose|w: RegionVerId| #[trigger]
                        model.drops_region(region, w) && model.regions[w].region@.region.start_key
                            == other.region.start_key;
                    assert(model.indexes(w));
                }
            }
            assert(!model.drops_id(region, other.region.id)) by {
                if exists|w: RegionVerId| #[trigger]
                    model.drops_region(region, w) && model.regions[w].region@.region.id
                        == other.region.id {
                    let w = choose|w: RegionVerId| #[trigger]
                        model.drops_region(region, w) && model.regions[w].region@.region.id
                            == other.region.id;
                    assert(model.indexes(w));
                }
            }
            assert(other.region.start_key != region.region.start_key);
        }
    }
    assert forall|k: Seq<u8>| #[trigger] after.starts.contains_key(k) implies after.regions.contains_key(
        after.starts[k],
    ) && after.regions[after.starts[k]].region@.region.start_key == k by {
        if k != region.region.start_key {
            let w = model.starts[k];
            assert(model.starts.contains_key(k));
            assert(!model.drops_start(region, k));
            if model.drops_region(region, w) {
                assert(model.drops_start(region, k));
            }
        }
    }
    assert forall|id: RegionId| #[trigger] after.ids.contains_key(id) implies after.regions.contains_key(
        after.ids[id],
    ) && after.regions[after.ids[id]].region@.region.id == id by {
        if id != region.region.id {
            let w = model.ids[id];
            assert(model.ids.contains_key(id));
            assert(!model.drops_id(region, id));
            if model.drops_region(region, w) {
                assert(model.drops_id(region, id));
            }
        }
    }
    assert forall|v: RegionVerId, w: RegionVerId|
        #![trigger after.regions.contains_key(v), after.regions.contains_key(w)]
        after.regions.contains_key(v) && after.regions.contains_key(w) && v != w implies !overlap(
        after.regions[v].region@,
        after.regions[w].region@,
    ) by {
        if v != ver_id && w != ver_id {
            assert(model.regions.contains_key(v) && model.regions.contains_key(w));
        }
    }
}

/// Adding a region drops just those that overlap it and the older version of it, and leaves the
/// others as they are.
pub proof fn law_adding_drops_just_what_overlaps(
    model: CacheModel,
    cached: CachedRegion,
    ver_id: RegionVerId,
)
    requires
        model.consistent(),
        model.regions.contains_key(ver_id),
        ver_id != cached.region@.ver_id(),
    ensures
        model.added(cached).regions.contains_key(ver_id) <==> !overlap(
            model.regions[ver_id].region@,
            cached.region@,
        ) && model.regions[ver_id].region@.region.id != cached.region@.region.id,
        model.added(cached).regions.contains_key(ver_id) ==> model.added(cached).regions[ver_id]
            == model.regions[ver_id],
{
    lemma_drops_overlapping(model, cached.region@, ver_id);
}

/// A consistent cache finds the region that holds a key, whenever it has one.
pub proof fn law_the_region_of_a_key_is_found(model: CacheModel, ver_id: RegionVerId, key: Seq<u8>)
    requires
        model.consistent(),
        model.regions.contains_key(ver_id),
        model.regions[ver_id].region@.contains(key),
    ensures
        model.candidate_by_key(key) == Some(ver_id),
{
    let region = model.regions[ver_id].region@;
    let start = region.region.start_key;
    assert(model.indexes(ver_id));
    assert forall|other: Seq<u8>| #[trigger] model.starts.contains_key(other) && lex_le(
        other,
        key,
    ) implies lex_le(other, start) by {
        let w = model.starts[other];
        let next = model.regions[w].region@;
        assert(model.indexes(w));
        lemma_lex_not_lt(start, other);
        if lex_lt(start, other) {
            // Both regions would hold `other`.
            lemma_lex_irreflexive(start);
            assert(w != ver_id);
            lemma_lex_chain(other, key, region.region.end_key);
            lemma_lex_chain(start, other, next.region.end_key);
            assert(overlap(region, next));
        }
    }
    assert(is_floor(model.starts, key, start));
    let chosen = choose|s: Seq<u8>| is_floor(model.starts, key, s);
    lemma_floor_unique(model.starts, key, start, chosen);
}

/// A region that was added is found by each of its keys, by its id and by its identity.
pub proof fn law_an_added_region_is_found(model: CacheModel, cached: CachedRegion, key: Seq<u8>)
    requires
        model.consistent(),
        model.accepts(cached.region@),
        cached.region@.contains(key),
    ensures
        model.added(cached).candidate_by_key(key) == Some(cached.region@.ver_id()),
        model.added(cached).candidate_by_id(cached.region@.region.id) == Some(
            cached.region@.ver_id(),
        ),
        model.added(cached).regions[cached.region@.ver_id()] == cached,
{
    law_adding_keeps_the_cache_consistent(model, cached);
    law_the_region_of_a_key_is_found(model.added(cached), cached.region@.ver_id(), key);
}

/// A region that was dropped is not found any more, the others still are, and the cache stays
/// consistent.
pub proof fn law_a_dropped_region_is_gone(model: CacheModel, ver_id: RegionVerId, key: Seq<u8>)
    requires
        model.consistent(),
    ensures
        model.without(ver_id).consistent(),
        !model.without(ver_id).regions.contains_key(ver_id),
        model.without(ver_id).candidate_by_key(key) != Some(ver_id),
        forall|other: RegionVerId|
            other != ver_id && #[trigger] model.regions.contains_key(other)
                ==> model.without(ver_id).regions.contains_key(other)
                && model.without(ver_id).regions[other] == model.regions[other],
{
    let after = model.without(ver_id);
    if model.regions.contains_key(ver_id) {
        assert(model.indexes(ver_id));
        assert forall|v: RegionVerId| #[trigger] after.regions.contains_key(v) implies after.indexes(
            v,
        ) by {
            assert(model.regions.contains_key(v));
            assert(model.indexes(v));
        }
        assert forall|k: Seq<u8>| #[trigger]
            after.starts.contains_key(k) implies after.regions.contains_key(after.starts[k])
            && after.regions[after.starts[k]].region@.region.start_key == k by {
            assert(model.starts.contains_key(k));
        }
        assert forall|id: RegionId| #[trigger]
            after.ids.contains_key(id) implies after.regions.contains_key(after.ids[id])
            && after.regions[after.ids[id]].region@.region.id == id by {
            assert(model.ids.contains_key(id));
        }
        assert forall|v: RegionVerId, w: RegionVerId|
            #![trigger after.regions.contains_key(v), after.regions.contains_key(w)]
            after.regions.contains_key(v) && after.regions.contains_key(w) && v
                != w implies !overlap(after.regions[v].region@, after.regions[w].region@) by {
            assert(model.regions.contains_key(v) && model.regions.contains_key(w));
        }
    }
}

/// Changing the leader, the buckets or the time of a cached region keeps the cache consistent.
pub proof fn law_changing_an_entry_keeps_the_cache_consistent(
    model: CacheModel,
    ver_id: RegionVerId,
    cached: CachedRegion,
)
    requires
        model.consistent(),
        model.regions.contains_key(ver_id),
        cached.region@.region == model.regions[ver_id].region@.region,
    ensures
        model.with(ver_id, cached).consistent(),
{
    let after = model.with(ver_id, cached);
    assert forall|v: RegionVerId| #[trigger] after.regions.contains_key(v) implies after.indexes(
        v,
    ) by {
        assert(model.regions.contains_key(v));
        assert(model.indexes(v));
    }
    assert forall|v: RegionVerId, w: RegionVerId|
        #![trigger after.regions.contains_key(v), after.regions.contains_key(w)]
        after.regions.contains_key(v) && after.regions.contains_key(w) && v != w implies !overlap(
        after.regions[v].region@,
        after.regions[w].region@,
    ) by {
        assert(model.regions.contains_key(v) && model.regions.contains_key(w));
    }
}

/// Looking a region up keeps the cache consistent, and drops nothing.
pub proof fn law_looking_up_keeps_the_cache_consistent(
    model: CacheModel,
    candidate: Option<RegionVerId>,
    ttl: RegionCacheTtl,
    now_epoch_sec: i64,
    require_buckets: bool,
    after: CacheModel,
)
    requires
        model.consistent(),
        candidate is Some ==> model.regions.contains_key(candidate->0),
        model.used(candidate, ttl, now_epoch_sec, require_buckets, after),
    ensures
        after.consistent(),
        after.regions.dom() == model.regions.dom(),
        forall|v: RegionVerId| #[trigger]
            model.regions.contains_key(v) ==> after.regions[v].region == model.regions[v].region
                && after.regions[v].buckets == model.regions[v].buckets,
{
    if model.serves(candidate, require_buckets) {
        let ver_id = candidate->0;
        law_changing_an_entry_keeps_the_cache_consistent(model, ver_id, after.regions[ver_id]);
        assert(after.regions.dom() =~= model.regions.dom());
    }
}

/// A region that comes without buckets keeps those that the same version of it is cached with.
pub proof fn law_adding_keeps_the_buckets_of_the_same_version(
    model: CacheModel,
    loaded: RegionLoadResult,
    buckets: Option<Buckets>,
    ttl_epoch_sec: i64,
)
    requires
        loaded.buckets is None,
        model.regions.contains_key(loaded.region@.ver_id()),
        model.keeps_buckets(loaded, buckets),
    ensures
        buckets_view(
            model.added(
                CachedRegion { region: loaded.region, buckets, ttl_epoch_sec },
            ).regions[loaded.region@.ver_id()].buckets,
        ) == buckets_view(model.regions[loaded.region@.ver_id()].buckets),
{
}

/// The empty cache is consistent.
pub proof fn law_the_empty_cache_is_consistent()
    ensures
        (CacheModel {
            regions: Map::empty(),
            starts: Map::empty(),
            ids: Map::empty(),
        }).consistent(),
{
}

} // verus!
