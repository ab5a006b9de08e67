//! The index of the cached regions: by identity, by start key and by id.

use std::collections::HashMap;
use vstd::prelude::*;

use crate::kv::key::Key;
use crate::kv::order::{bytes_lt, lemma_lex_asymmetric, lex_le, lex_lt};
use crate::proto::metapb::{Buckets, BucketsView, Peer};
use crate::region::{RegionId, RegionVerId, RegionWithLeader, RegionWithLeaderView};
use crate::region_cache::maps::{is_floor, StartKeyMap, VerIdMap};
use crate::region_cache::ttl::RegionCacheTtl;

verus! {

broadcast use vstd::std_specs::hash::group_hash_axioms;

/// What the placement driver told of a region.
#[derive(Debug, PartialEq, Eq)]
pub struct RegionLoadResult {
    pub region: RegionWithLeader,
    pub buckets: Option<Buckets>,
}

/// What optional buckets hold.
pub open spec fn buckets_view(buckets: Option<Buckets>) -> Option<BucketsView> {
    match buckets {
        Some(buckets) => Some(buckets@),
        None => None,
    }
}

fn clone_buckets(buckets: &Option<Buckets>) -> (r: Option<Buckets>)
    ensures
        buckets_view(r) == buckets_view(*buckets),
{
    match buckets {
        Some(buckets) => Some(buckets.clone()),
        None => None,
    }
}

impl RegionLoadResult {
    /// A region with its buckets.
    pub fn new(region: RegionWithLeader, buckets: Option<Buckets>) -> (r: Self)
        ensures
            r.region == region,
            r.buckets == buckets,
    {
        RegionLoadResult { region, buckets }
    }

    /// The region without its buckets.
    pub fn into_region(self) -> (r: RegionWithLeader)
        ensures
            r == self.region,
    {
        self.region
    }

    /// The version of the buckets, or 0 without any.
    pub fn bucket_version(&self) -> (r: u64)
        ensures
            r == bucket_version(self.buckets),
    {
        match &self.buckets {
            Some(buckets) => buckets.version,
            None => 0,
        }
    }
}

impl Clone for RegionLoadResult {
    fn clone(&self) -> (r: Self)
        ensures
            r.region@ == self.region@,
            buckets_view(r.buckets) == buckets_view(self.buckets),
    {
        RegionLoadResult { region: self.region.clone(), buckets: clone_buckets(&self.buckets) }
    }
}

impl From<RegionWithLeader> for RegionLoadResult {
    fn from(region: RegionWithLeader) -> (r: Self) {
        RegionLoadResult { region, buckets: None }
    }
}

impl vstd::std_specs::convert::FromSpecImpl<RegionWithLeader> for RegionLoadResult {
    open spec fn obeys_from_spec() -> bool {
        true
    }

    open spec fn from_spec(region: RegionWithLeader) -> RegionLoadResult {
        RegionLoadResult { region, buckets: None }
    }
}

/// The cached region entry along with its expiration timestamp.
///
/// `ttl_epoch_sec` is an epoch timestamp in seconds. It is updated on access to approximate an
/// "idle TTL" (hot regions stay cached).
#[derive(Debug, PartialEq, Eq)]
pub struct CachedRegion {
    pub region: RegionWithLeader,
    pub buckets: Option<Buckets>,
    pub ttl_epoch_sec: i64,
}

/// The version of buckets, or 0 without any.
pub open spec fn bucket_version(buckets: Option<Buckets>) -> u64 {
    match buckets {
        Some(buckets) => buckets.version,
        None => 0,
    }
}

impl CachedRegion {
    /// A region that stays until the given moment.
    pub fn new(region: RegionWithLeader, buckets: Option<Buckets>, ttl_epoch_sec: i64) -> (r:
        CachedRegion)
        ensures
            r.region == region,
            r.buckets == buckets,
            r.ttl_epoch_sec == ttl_epoch_sec,
    {
        CachedRegion { region, buckets, ttl_epoch_sec }
    }

    /// The region and its buckets.
    pub fn to_region_load(&self) -> (r: RegionLoadResult)
        ensures
            loads(r, *self),
    {
        RegionLoadResult { region: self.region.clone(), buckets: clone_buckets(&self.buckets) }
    }
}

/// The result holds what the cached entry holds.
pub open spec fn loads(result: RegionLoadResult, cached: CachedRegion) -> bool {
    &&& result.region@ == cached.region@
    &&& buckets_view(result.buckets) == buckets_view(cached.buckets)
}

/// `key` comes before the end of a range, where an empty end is the end of the key space.
pub open spec fn before_end(key: Seq<u8>, end: Seq<u8>) -> bool {
    end.len() == 0 || lex_lt(key, end)
}

/// What the index holds.
#[verifier::ext_equal]
pub struct CacheModel {
    pub regions: Map<RegionVerId, CachedRegion>,
    pub starts: Map<Seq<u8>, RegionVerId>,
    pub ids: Map<RegionId, RegionVerId>,
}

impl CacheModel {
    /// A region is added below: going down from the end of `region`, the start key `key` is met
    /// before any cached region that ends before `region` starts.
    pub open spec fn reaches(self, region: RegionWithLeaderView, key: Seq<u8>) -> bool {
        &&& self.starts.contains_key(key)
        &&& before_end(key, region.region.end_key)
        &&& forall|other: Seq<u8>| #[trigger]
            self.starts.contains_key(other) && before_end(other, region.region.end_key) && lex_le(
                key,
                other,
            ) && self.regions.contains_key(self.starts[other]) ==> before_end(
                region.region.start_key,
                self.regions[self.starts[other]].region@.region.end_key,
            )
    }

    /// The cached region gives way to `region`: it is an older version of it, or overlaps it.
    pub open spec fn drops_region(self, region: RegionWithLeaderView, ver_id: RegionVerId) -> bool {
        &&& self.regions.contains_key(ver_id)
        &&& {
            ||| self.ids.contains_key(region.region.id) && self.ids[region.region.id] == ver_id
                && ver_id != region.ver_id()
            ||| exists|key: Seq<u8>| #[trigger]
                self.reaches(region, key) && self.starts[key] == ver_id
        }
    }

    /// The start key gives way to `region`: its region does, or is not there.
    pub open spec fn drops_start(self, region: RegionWithLeaderView, key: Seq<u8>) -> bool {
        ||| self.reaches(region, key) && !self.regions.contains_key(self.starts[key])
        ||| exists|ver_id: RegionVerId| #[trigger]
            self.drops_region(region, ver_id) && self.regions[ver_id].region@.region.start_key
                == key
    }

    /// The id gives way to `region`: its region does.
    pub open spec fn drops_id(self, region: RegionWithLeaderView, id: RegionId) -> bool {
        exists|ver_id: RegionVerId| #[trigger]
            self.drops_region(region, ver_id) && self.regions[ver_id].region@.region.id == id
    }

    /// The index after a region was added.
    pub open spec fn added(self, cached: CachedRegion) -> CacheModel {
        let region = cached.region@;
        CacheModel {
            regions: self.regions.remove_keys(
                Set::new(|ver_id: RegionVerId| self.drops_region(region, ver_id)),
            ).insert(region.ver_id(), cached),
            starts: self.starts.remove_keys(
                Set::new(|key: Seq<u8>| self.drops_start(region, key)),
            ).insert(region.region.start_key, region.ver_id()),
            ids: self.ids.remove_keys(
                Set::new(|id: RegionId| self.drops_id(region, id)),
            ).insert(region.region.id, region.ver_id()),
        }
    }

    /// The buckets that a region is cached with: those that came with it, or else those that the
    /// same version of it is cached with.
    pub open spec fn keeps_buckets(
        self,
        loaded: RegionLoadResult,
        buckets: Option<Buckets>,
    ) -> bool {
        match loaded.buckets {
            Some(_) => buckets == loaded.buckets,
            None => {
                let ver_id = loaded.region@.ver_id();
                buckets_view(buckets) == (if self.regions.contains_key(ver_id) {
                    buckets_view(self.regions[ver_id].buckets)
                } else {
                    None
                })
            },
        }
    }

    /// The index after a region was dropped.
    pub open spec fn without(self, ver_id: RegionVerId) -> CacheModel {
        if self.regions.contains_key(ver_id) {
            let region = self.regions[ver_id].region@.region;
            CacheModel {
                regions: self.regions.remove(ver_id),
                starts: self.starts.remove(region.start_key),
                ids: self.ids.remove(region.id),
            }
        } else {
            self
        }
    }

    /// The index with another entry for a region.
    pub open spec fn with(self, ver_id: RegionVerId, cached: CachedRegion) -> CacheModel {
        CacheModel { regions: self.regions.insert(ver_id, cached), ..self }
    }

    /// The region that a key is looked for in: the one with the last start key that does not come
    /// after the key.
    pub open spec fn candidate_by_key(self, key: Seq<u8>) -> Option<RegionVerId> {
        if exists|start: Seq<u8>| is_floor(self.starts, key, start) {
            self.known(self.starts[choose|start: Seq<u8>| is_floor(self.starts, key, start)])
        } else {
            None
        }
    }

    /// The region with an id.
    pub open spec fn candidate_by_id(self, id: RegionId) -> Option<RegionVerId> {
        if self.ids.contains_key(id) {
            self.known(self.ids[id])
        } else {
            None
        }
    }

    /// The region, if it is cached.
    pub open spec fn known(self, ver_id: RegionVerId) -> Option<RegionVerId> {
        if self.regions.contains_key(ver_id) {
            Some(ver_id)
        } else {
            None
        }
    }

    /// The candidate can serve a lookup, as far as buckets go.
    pub open spec fn serves(self, candidate: Option<RegionVerId>, require_buckets: bool) -> bool {
        candidate is Some && (require_buckets ==> self.regions[candidate->0].buckets is Some)
    }

    /// A lookup finds the candidate.
    pub open spec fn finds(
        self,
        candidate: Option<RegionVerId>,
        ttl: RegionCacheTtl,
        now_epoch_sec: i64,
        require_buckets: bool,
    ) -> bool {
        &&& self.serves(candidate, require_buckets)
        &&& ttl.is_live(self.regions[candidate->0].ttl_epoch_sec, now_epoch_sec)
    }

    /// `after` is what a lookup of the candidate makes of the index: its time may be renewed.
    pub open spec fn used(
        self,
        candidate: Option<RegionVerId>,
        ttl: RegionCacheTtl,
        now_epoch_sec: i64,
        require_buckets: bool,
        after: CacheModel,
    ) -> bool {
        if self.serves(candidate, require_buckets) {
            let cached = self.regions[candidate->0];
            exists|ttl_epoch_sec: i64| #[trigger]
                ttl.refreshes_to(cached.ttl_epoch_sec, now_epoch_sec, ttl_epoch_sec) && after
                    == self.with(candidate->0, CachedRegion { ttl_epoch_sec, ..cached })
        } else {
            after == self
        }
    }
}

/// There is at most one last start key before a key.
pub proof fn lemma_floor_unique(
    starts: Map<Seq<u8>, RegionVerId>,
    key: Seq<u8>,
    a: Seq<u8>,
    b: Seq<u8>,
)
    requires
        is_floor(starts, key, a),
        is_floor(starts, key, b),
    ensures
        a == b,
{
    assert(lex_le(a, b));
    assert(lex_le(b, a));
    if a != b {
        lemma_lex_asymmetric(a, b);
    }
}

/// The index of the cached regions.
#[derive(Debug)]
pub struct RegionCacheMap {
    /// RegionVerID -> Region. It stores the concrete region caches.
    /// RegionVerID is the unique identifer of a region *across time*.
    pub ver_id_to_region: VerIdMap<CachedRegion>,
    /// Start_key -> RegionVerID
    pub key_to_ver_id: StartKeyMap,
    /// RegionID -> RegionVerID. Note: regions with identical ID doesn't necessarily
    /// mean they are the same, they can be different regions across time.
    pub id_to_ver_id: HashMap<RegionId, RegionVerId>,
}

impl View for RegionCacheMap {
    type V = CacheModel;

    open spec fn view(&self) -> CacheModel {
        CacheModel {
            regions: self.ver_id_to_region@,
            starts: self.key_to_ver_id@,
            ids: self.id_to_ver_id@,
        }
    }
}

/// `ver_id` is one of those to be removed, and cached.
spec fn to_remove(
    regions: Map<RegionVerId, CachedRegion>,
    removed: Seq<RegionVerId>,
    ver_id: RegionVerId,
) -> bool {
    removed.contains(ver_id) && regions.contains_key(ver_id)
}

spec fn start_to_remove(
    regions: Map<RegionVerId, CachedRegion>,
    removed: Seq<RegionVerId>,
    key: Seq<u8>,
) -> bool {
    exists|ver_id: RegionVerId| #[trigger]
        to_remove(regions, removed, ver_id) && regions[ver_id].region@.region.start_key == key
}

spec fn id_to_remove(
    regions: Map<RegionVerId, CachedRegion>,
    removed: Seq<RegionVerId>,
    id: RegionId,
) -> bool {
    exists|ver_id: RegionVerId| #[trigger]
        to_remove(regions, removed, ver_id) && regions[ver_id].region@.region.id == id
}

/// The index without the regions that are to be removed.
spec fn after_removal(model: CacheModel, removed: Seq<RegionVerId>) -> CacheModel {
    CacheModel {
        regions: model.regions.remove_keys(
            Set::new(|ver_id: RegionVerId| to_remove(model.regions, removed, ver_id)),
        ),
        starts: model.starts.remove_keys(
            Set::new(|key: Seq<u8>| start_to_remove(model.regions, removed, key)),
        ),
        ids: model.ids.remove_keys(
            Set::new(|id: RegionId| id_to_remove(model.regions, removed, id)),
        ),
    }
}

proof fn lemma_to_remove_push(
    regions: Map<RegionVerId, CachedRegion>,
    removed: Seq<RegionVerId>,
    n: int,
)
    requires
        0 <= n < removed.len(),
    ensures
        forall|v: RegionVerId|
            to_remove(regions, removed.take(n + 1), v) <==> to_remove(regions, removed.take(n), v)
                || (v == removed[n] && regions.contains_key(v)),
{
    assert forall|v: RegionVerId|
        to_remove(regions, removed.take(n + 1), v) <==> to_remove(regions, removed.take(n), v) || (v
            == removed[n] && regions.contains_key(v)) by {
        let (shorter, longer) = (removed.take(n), removed.take(n + 1));
        if shorter.contains(v) {
            let i = choose|i: int| 0 <= i < shorter.len() && shorter[i] == v;
            assert(longer[i] == v);
        }
        if v == removed[n] {
            assert(longer[n] == v);
        }
        if longer.contains(v) {
            let i = choose|i: int| 0 <= i < longer.len() && longer[i] == v;
            if i < n {
                assert(shorter[i] == v);
            }
        }
    }
}

impl RegionCacheMap {
    /// The parts of the index are in order.
    pub open spec fn wf(self) -> bool {
        self.ver_id_to_region.wf() && self.key_to_ver_id.wf()
    }

    /// An empty index.
    pub fn new() -> (r: RegionCacheMap)
        ensures
            r.wf(),
            r@ == (CacheModel { regions: Map::empty(), starts: Map::empty(), ids: Map::empty() }),
    {
        RegionCacheMap {
            ver_id_to_region: VerIdMap::new(),
            key_to_ver_id: StartKeyMap::new(),
            id_to_ver_id: HashMap::new(),
        }
    }

    /// Drop the regions with the given identities, with their start keys and ids.
    fn remove_all(&mut self, removed: &Vec<RegionVerId>)
        requires
            old(self).wf(),
        ensures
            final(self).wf(),
            final(self)@ == after_removal(old(self)@, removed@),
    {
        let ghost before = self@;
        let mut i: usize = 0;
        proof {
            let none = removed@.take(0);
            assert forall|v: RegionVerId| !to_remove(before.regions, none, v) by {}
            assert(self@ =~= after_removal(before, none));
        }
        while i < removed.len()
            invariant
                i <= removed.len(),
                self.wf(),
                self@ == after_removal(before, removed@.take(i as int)),
            decreases removed.len() - i,
        {
            let ghost current = self@;
            let ver_id = removed[i];
            proof {
                lemma_to_remove_push(before.regions, removed@, i as int);
            }
            let ghost next = after_removal(before, removed@.take(i + 1));
            match self.ver_id_to_region.remove(ver_id) {
                None => {
                    proof {
                        assert(current.regions.remove(ver_id) =~= current.regions);
                        assert(next =~= current) by {
                            assert(!current.regions.contains_key(ver_id));
                            assert forall|v: RegionVerId|
                                to_remove(before.regions, removed@.take(i + 1), v) <==> to_remove(
                                    before.regions,
                                    removed@.take(i as int),
                                    v,
                                ) by {}
                            assert(next.regions =~= current.regions);
                            assert(next.starts =~= current.starts) by {
                                assert forall|key: Seq<u8>|
                                    start_to_remove(before.regions, removed@.take(i + 1), key)
                                        <==> start_to_remove(
                                        before.regions,
                                        removed@.take(i as int),
                                        key,
                                    ) by {}
                            }
                            assert(next.ids =~= current.ids) by {
                                assert forall|id: RegionId|
                                    id_to_remove(before.regions, removed@.take(i + 1), id)
                                        <==> id_to_remove(
                                        before.regions,
                                        removed@.take(i as int),
                                        id,
                                    ) by {}
                            }
                        }
                    }
                },
                Some(cached) => {
                    self.key_to_ver_id.remove(&cached.region.region.start_key);
                    let id: RegionId = cached.region.id();
                    self.id_to_ver_id.remove(&id);
                    proof {
                        let start = cached.region@.region.start_key;
                        assert(before.regions[ver_id] == cached);
                        assert(to_remove(before.regions, removed@.take(i + 1), ver_id));
                        assert(next.regions =~= self@.regions);
                        assert(next.starts =~= self@.starts) by {
                            assert forall|key: Seq<u8>|
                                start_to_remove(before.regions, removed@.take(i + 1), key) <==> (
                                start_to_remove(before.regions, removed@.take(i as int), key) || key
                                    == start) by {}
                        }
                        assert(next.ids =~= self@.ids) by {
                            assert forall|other: RegionId|
                                id_to_remove(before.regions, removed@.take(i + 1), other) <==> (
                                id_to_remove(before.regions, removed@.take(i as int), other)
                                    || other == id) by {}
                        }
                        assert(next =~= self@);
                    }
                },
            }
            i = i + 1;
        }
        assert(removed@.take(i as int) =~= removed@);
    }

    /// The identities of the regions that give way to a region, and the start keys that give way
    /// to it because they have no region.
    fn find_dropped(&self, region: &RegionWithLeader) -> (r: (Vec<RegionVerId>, Vec<Key>))
        requires
            self.wf(),
        ensures
            forall|v: RegionVerId|
                #![trigger to_remove(self@.regions, r.0@, v)]
                #![trigger self@.drops_region(region@, v)]
                to_remove(self@.regions, r.0@, v) <==> self@.drops_region(region@, v),
            forall|key: Seq<u8>|
                #![trigger has_key(r.1@, key)]
                #![trigger self@.reaches(region@, key)]
                has_key(r.1@, key) <==> self@.reaches(region@, key) && !self@.regions.contains_key(
                    self@.starts[key],
                ),
    {
        let ghost model = self@;
        let ghost entries = self.key_to_ver_id.sorted();
        let ghost start = region@.region.start_key;
        let ghost end = region@.region.end_key;
        let ver_id = region.ver_id();
        let id: RegionId = region.id();
        let mut removed: Vec<RegionVerId> = Vec::new();
        let mut stale: Vec<Key> = Vec::new();
        if let Some(cached) = self.id_to_ver_id.get(&id) {
            if *cached != ver_id {
                removed.push(*cached);
            }
        }
        let ghost by_id = removed@;
        let n: usize = if region.region.end_key.len() == 0 {
            self.key_to_ver_id.len()
        } else {
            self.key_to_ver_id.count_before(&region.region.end_key)
        };
        proof {
            self.key_to_ver_id.lemma_sorted();
            assert forall|j: int| 0 <= j < entries.len() implies (j < n <==> before_end(
                #[trigger] entries[j].0,
                end,
            )) by {}
        }
        let mut i: usize = n;
        let mut more: bool = true;
        while more && i > 0
            invariant
                self.wf(),
                model == self@,
                entries == self.key_to_ver_id.sorted(),
                start == region@.region.start_key,
                i <= n <= entries.len(),
                forall|j: int|
                    i <= j < n && model.regions.contains_key((#[trigger] entries[j]).1)
                        ==> before_end(start, model.regions[entries[j].1].region@.region.end_key),
                forall|v: RegionVerId|
                    #![trigger removed@.contains(v)]
                    removed@.contains(v) <==> by_id.contains(v) || exists|j: int|
                        i <= j < n && (#[trigger] entries[j]).1 == v && model.regions.contains_key(
                            v,
                        ),
                forall|key: Seq<u8>|
                    #![trigger has_key(stale@, key)]
                    has_key(stale@, key) <==> exists|j: int|
                        i <= j < n && (#[trigger] entries[j]).0 == key
                            && !model.regions.contains_key(entries[j].1),
                !more ==> i > 0 && model.regions.contains_key(entries[i - 1].1) && !before_end(
                    start,
                    model.regions[entries[i - 1].1].region@.region.end_key,
                ),
            decreases i, (if more { 1int } else { 0int }),
        {
            let candidate = self.key_to_ver_id.ver_id_at(i - 1);
            let ghost removed_before = removed@;
            let ghost stale_before = stale@;
            match self.ver_id_to_region.get(candidate) {
                None => {
                    let key = self.key_to_ver_id.key_at(i - 1).clone();
                    stale.push(key);
                    i = i - 1;
                    proof {
                        lemma_has_key_push(stale_before, key);
                        assert(entries[i as int].0 == key@);
                    }
                },
                Some(cached) => {
                    let end_key = &cached.region.region.end_key;
                    if end_key.len() == 0 || bytes_lt(&region.region.start_key, end_key) {
                        removed.push(candidate);
                        i = i - 1;
                        proof {
                            lemma_contains_push(removed_before, candidate);
                            assert(entries[i as int].1 == candidate);
                        }
                    } else {
                        more = false;
                    }
                },
            }
        }
        proof {
            // The entries that were met are just those that the region reaches.
            assert forall|j: int| 0 <= j < entries.len() implies (i <= j < n <==> model.reaches(
                region@,
                (#[trigger] entries[j]).0,
            )) by {
                let key = entries[j].0;
                if i <= j < n {
                    assert forall|other: Seq<u8>| #[trigger]
                        model.starts.contains_key(other) && before_end(other, end) && lex_le(
                            key,
                            other,
                        ) && model.regions.contains_key(model.starts[other]) implies before_end(
                        start,
                        model.regions[model.starts[other]].region@.region.end_key,
                    ) by {
                        let k = choose|k: int|
                            0 <= k < entries.len() && (#[trigger] entries[k]).0 == other;
                        if k < j {
                            lemma_lex_asymmetric(entries[k].0, entries[j].0);
                        }
                    }
                } else if j < i {
                    let k = i - 1;
                    if j < k {
                        assert(lex_lt(entries[j].0, entries[k].0));
                    }
                    assert(model.starts.contains_key(entries[k].0));
                    assert(before_end(entries[k].0, end));
                }
            }
            assert forall|v: RegionVerId|
                to_remove(model.regions, removed@, v) <==> model.drops_region(region@, v) by {
                assert(by_id.contains(v) <==> model.ids.contains_key(id) && model.ids[id] == v && v
                    != ver_id) by {
                    if by_id.len() > 0 {
                        assert(by_id[0] == model.ids[id]);
                    }
                }
                if model.regions.contains_key(v) {
                    if exists|j: int|
                        i <= j < n && (#[trigger] entries[j]).1 == v && model.regions.contains_key(
                            v,
                        ) {
                        let j = choose|j: int|
                            i <= j < n && (#[trigger] entries[j]).1 == v
                                && model.regions.contains_key(v);
                        assert(model.reaches(region@, entries[j].0));
                        assert(model.starts[entries[j].0] == v);
                    }
                    if exists|key: Seq<u8>| #[trigger]
                        model.reaches(region@, key) && model.starts[key] == v {
                        let key = choose|key: Seq<u8>| #[trigger]
                            model.reaches(region@, key) && model.starts[key] == v;
                        let j = choose|j: int|
                            0 <= j < entries.len() && (#[trigger] entries[j]).0 == key;
                        assert(entries[j].1 == v);
                    }
                }
            }
            assert forall|key: Seq<u8>|
                has_key(stale@, key) <==> model.reaches(region@, key)
                    && !model.regions.contains_key(model.starts[key]) by {
                if model.starts.contains_key(key) {
                    let j = choose|j: int|
                        0 <= j < entries.len() && (#[trigger] entries[j]).0 == key;
                    assert(model.starts[key] == entries[j].1);
                }
                if has_key(stale@, key) {
                    let j = choose|j: int|
                        i <= j < n && (#[trigger] entries[j]).0 == key
                            && !model.regions.contains_key(entries[j].1);
                    assert(model.starts.contains_key(entries[j].0));
                }
            }
        }
        (removed, stale)
    }

    /// Take start keys out of the index.
    fn remove_starts(&mut self, stale: &Vec<Key>)
        requires
            old(self).wf(),
        ensures
            final(self).wf(),
            final(self)@ == (CacheModel {
                starts: old(self)@.starts.remove_keys(
                    Set::new(|key: Seq<u8>| has_key(stale@, key)),
                ),
                ..old(self)@
            }),
    {
        let ghost before = self@;
        let mut i: usize = 0;
        assert(self@.starts =~= before.starts.remove_keys(
            Set::new(|key: Seq<u8>| has_key(stale@.take(0), key)),
        ));
        while i < stale.len()
            invariant
                i <= stale.len(),
                self.wf(),
                self@ == (CacheModel {
                    starts: before.starts.remove_keys(
                        Set::new(|key: Seq<u8>| has_key(stale@.take(i as int), key)),
                    ),
                    ..before
                }),
            decreases stale.len() - i,
        {
            self.key_to_ver_id.remove(&stale[i].0);
            proof {
                assert(stale@.take(i + 1) =~= stale@.take(i as int).push(stale@[i as int]));
                lemma_has_key_push(stale@.take(i as int), stale@[i as int]);
                assert(self@.starts =~= before.starts.remove_keys(
                    Set::new(|key: Seq<u8>| has_key(stale@.take(i + 1), key)),
                ));
            }
            i = i + 1;
        }
        assert(stale@.take(i as int) =~= stale@);
    }

    /// Add a region, that stays until the given moment, in place of its older version and of all
    /// regions that overlap it.
    ///
    /// Without buckets the region keeps those that the same version of it is cached with.
    pub fn add_region_load(&mut self, loaded: RegionLoadResult, ttl_epoch_sec: i64)
        requires
            old(self).wf(),
        ensures
            final(self).wf(),
            exists|buckets: Option<Buckets>| #[trigger]
                old(self)@.keeps_buckets(loaded, buckets) && final(self)@ == old(self)@.added(
                    CachedRegion { region: loaded.region, buckets, ttl_epoch_sec },
                ),
    {
        let ghost model = self@;
        let ver_id = loaded.region.ver_id();
        let buckets = match loaded.buckets {
            Some(buckets) => Some(buckets),
            None => match self.ver_id_to_region.get(ver_id) {
                Some(cached) => clone_buckets(&cached.buckets),
                None => None,
            },
        };
        let region = loaded.region;
        let ghost view = region@;
        let (removed, stale) = self.find_dropped(&region);
        self.remove_starts(&stale);
        self.remove_all(&removed);
        let start_key = region.start_key();
        let id: RegionId = region.id();
        self.key_to_ver_id.insert(start_key, ver_id);
        self.id_to_ver_id.insert(id, ver_id);
        self.ver_id_to_region.insert(ver_id, CachedRegion::new(region, buckets, ttl_epoch_sec));
        proof {
            let cached = CachedRegion { region: loaded.region, buckets, ttl_epoch_sec };
            assert(model.keeps_buckets(loaded, buckets));
            let after = model.added(cached);
            assert(self@.regions =~= after.regions);
            assert(self@.starts =~= after.starts) by {
                assert forall|key: Seq<u8>|
                    has_key(stale@, key) || start_to_remove(model.regions, removed@, key)
                        <==> model.drops_start(view, key) by {}
            }
            assert(self@.ids =~= after.ids) by {
                assert forall|other: RegionId|
                    id_to_remove(model.regions, removed@, other) <==> model.drops_id(
                        view,
                        other,
                    ) by {}
            }
            assert(self@ =~= after);
        }
    }

    fn floor_of(&self, key: &Key) -> (r: Option<RegionVerId>)
        requires
            self.wf(),
        ensures
            self@.candidate_by_key(key@) == (match r {
                Some(ver_id) => self@.known(ver_id),
                None => None,
            }),
    {
        let r = self.key_to_ver_id.floor(&key.0);
        proof {
            let starts = self@.starts;
            match r {
                Some(ver_id) => {
                    let start = choose|start: Seq<u8>|
                        is_floor(starts, key@, start) && starts[start] == ver_id;
                    let chosen = choose|start: Seq<u8>| is_floor(starts, key@, start);
                    assert(is_floor(starts, key@, start));
                    lemma_floor_unique(starts, key@, start, chosen);
                },
                None => {
                    assert forall|start: Seq<u8>| !is_floor(starts, key@, start) by {}
                },
            }
        }
        r
    }

    /// Use a region: whether it is cached, has buckets if they are required, and has not expired.
    fn use_region(
        &mut self,
        ver_id: RegionVerId,
        ttl: RegionCacheTtl,
        now_epoch_sec: i64,
        require_buckets: bool,
    ) -> (r: bool)
        requires
            old(self).wf(),
        ensures
            final(self).wf(),
            r == old(self)@.finds(old(self)@.known(ver_id), ttl, now_epoch_sec, require_buckets),
            old(self)@.used(
                old(self)@.known(ver_id),
                ttl,
                now_epoch_sec,
                require_buckets,
                final(self)@,
            ),
    {
        let ghost model = self@;
        match self.ver_id_to_region.get(ver_id) {
            None => {
                return false;
            },
            Some(cached) => {
                if require_buckets && cached.buckets.is_none() {
                    return false;
                }
            },
        }
        match self.ver_id_to_region.get_mut(ver_id) {
            None => false,
            Some(cached) => {
                let ghost before = *cached;
                let mut ttl_epoch_sec: i64 = cached.ttl_epoch_sec;
                let live = ttl.check_and_refresh(&mut ttl_epoch_sec, now_epoch_sec);
                cached.ttl_epoch_sec = ttl_epoch_sec;
                proof {
                    assert(ttl.refreshes_to(before.ttl_epoch_sec, now_epoch_sec, ttl_epoch_sec));
                    assert(*cached == (CachedRegion { ttl_epoch_sec, ..before }));
                }
                live
            },
        }
    }

    /// The cached region with the given identity.
    pub fn cached_region_load_by_ver_id(
        &mut self,
        ver_id: RegionVerId,
        ttl: RegionCacheTtl,
        now_epoch_sec: i64,
        require_buckets: bool,
    ) -> (r: Option<RegionLoadResult>)
        requires
            old(self).wf(),
        ensures
            final(self).wf(),
            old(self)@.used(
                old(self)@.known(ver_id),
                ttl,
                now_epoch_sec,
                require_buckets,
                final(self)@,
            ),
            r is Some <==> old(self)@.finds(
                old(self)@.known(ver_id),
                ttl,
                now_epoch_sec,
                require_buckets,
            ),
            r is Some ==> loads(r->0, old(self)@.regions[ver_id]),
    {
        if !self.use_region(ver_id, ttl, now_epoch_sec, require_buckets) {
            return None;
        }
        match self.ver_id_to_region.get(ver_id) {
            Some(cached) => Some(cached.to_region_load()),
            None => None,
        }
    }

    /// The cached region with the given id.
    pub fn cached_region_load_by_id(
        &mut self,
        id: RegionId,
        ttl: RegionCacheTtl,
        now_epoch_sec: i64,
        require_buckets: bool,
    ) -> (r: Option<RegionLoadResult>)
        requires
            old(self).wf(),
        ensures
            final(self).wf(),
            old(self)@.used(
                old(self)@.candidate_by_id(id),
                ttl,
                now_epoch_sec,
                require_buckets,
                final(self)@,
            ),
            r is Some <==> old(self)@.finds(
                old(self)@.candidate_by_id(id),
                ttl,
                now_epoch_sec,
                require_buckets,
            ),
            r is Some ==> loads(r->0, old(self)@.regions[old(self)@.ids[id]]),
    {
        let ver_id: RegionVerId = match self.id_to_ver_id.get(&id) {
            Some(ver_id) => *ver_id,
            None => {
                return None;
            },
        };
        self.cached_region_load_by_ver_id(ver_id, ttl, now_epoch_sec, require_buckets)
    }

    /// The cached region that holds a key.
    pub fn cached_region_load_by_key(
        &mut self,
        key: &Key,
        ttl: RegionCacheTtl,
        now_epoch_sec: i64,
        require_buckets: bool,
    ) -> (r: Option<RegionLoadResult>)
        requires
            old(self).wf(),
        ensures
            final(self).wf(),
            old(self)@.used(
                old(self)@.candidate_by_key(key@),
                ttl,
                now_epoch_sec,
                require_buckets,
                final(self)@,
            ),
            r is Some <==> old(self)@.finds(
                old(self)@.candidate_by_key(key@),
                ttl,
                now_epoch_sec,
                require_buckets,
            ) && old(self)@.regions[old(self)@.candidate_by_key(key@)->0].region@.contains(key@),
            r is Some ==> loads(
                r->0,
                old(self)@.regions[old(self)@.candidate_by_key(key@)->0],
            ),
    {
        let ver_id: RegionVerId = match self.floor_of(key) {
            Some(ver_id) => ver_id,
            None => {
                return None;
            },
        };
        match self.cached_region_load_by_ver_id(ver_id, ttl, now_epoch_sec, require_buckets) {
            Some(loaded) => if loaded.region.contains(key) {
                Some(loaded)
            } else {
                None
            },
            None => None,
        }
    }

    /// Make a peer the leader of a region, if the region is cached.
    pub fn update_leader(&mut self, ver_id: RegionVerId, leader: Peer, ttl_epoch_sec: i64)
        requires
            old(self).wf(),
        ensures
            final(self).wf(),
            final(self)@ == (if old(self)@.regions.contains_key(ver_id) {
                let cached = old(self)@.regions[ver_id];
                old(self)@.with(
                    ver_id,
                    CachedRegion {
                        region: RegionWithLeader { leader: Some(leader), ..cached.region },
                        ttl_epoch_sec,
                        ..cached
                    },
                )
            } else {
                old(self)@
            }),
    {
        if let Some(cached) = self.ver_id_to_region.get_mut(ver_id) {
            cached.region.leader = Some(leader);
            cached.ttl_epoch_sec = ttl_epoch_sec;
        }
    }

    /// Give a cached region newer buckets. Whether it has got them.
    pub fn update_buckets(
        &mut self,
        ver_id: RegionVerId,
        version: u64,
        keys: Vec<Vec<u8>>,
        ttl_epoch_sec: i64,
    ) -> (r: bool)
        requires
            old(self).wf(),
        ensures
            final(self).wf(),
            r == (old(self)@.regions.contains_key(ver_id) && bucket_version(
                old(self)@.regions[ver_id].buckets,
            ) < version),
            r ==> final(self)@ == old(self)@.with(
                ver_id,
                CachedRegion {
                    buckets: Some(
                        Buckets {
                            region_id: old(self)@.regions[ver_id].region@.region.id,
                            version,
                            keys,
                            period_in_ms: 0,
                        },
                    ),
                    ttl_epoch_sec,
                    ..old(self)@.regions[ver_id]
                },
            ),
            !r ==> final(self)@ == old(self)@,
    {
        match self.ver_id_to_region.get(ver_id) {
            None => {
                return false;
            },
            Some(cached) => {
                let current: u64 = match &cached.buckets {
                    Some(buckets) => buckets.version,
                    None => 0,
                };
                if current >= version {
                    return false;
                }
            },
        }
        if let Some(cached) = self.ver_id_to_region.get_mut(ver_id) {
            let region_id: RegionId = cached.region.id();
            cached.buckets = Some(Buckets { region_id, version, keys, period_in_ms: 0 });
            cached.ttl_epoch_sec = ttl_epoch_sec;
        }
        true
    }

    /// The id of a cached region whose buckets are older than the given version.
    pub fn region_with_stale_buckets(&self, ver_id: RegionVerId, latest_version: u64) -> (r: Option<
        RegionId,
    >)
        requires
            self.wf(),
        ensures
            r == (if self@.regions.contains_key(ver_id) && bucket_version(
                self@.regions[ver_id].buckets,
            ) < latest_version {
                Some(self@.regions[ver_id].region@.region.id)
            } else {
                None
            }),
    {
        match self.ver_id_to_region.get(ver_id) {
            None => None,
            Some(cached) => {
                let current: u64 = match &cached.buckets {
                    Some(buckets) => buckets.version,
                    None => 0,
                };
                if current >= latest_version {
                    None
                } else {
                    Some(cached.region.id())
                }
            },
        }
    }

    /// Drop a region.
    pub fn invalidate(&mut self, ver_id: RegionVerId)
        requires
            old(self).wf(),
        ensures
            final(self).wf(),
            final(self)@ == old(self)@.without(ver_id),
    {
        if let Some(cached) = self.ver_id_to_region.remove(ver_id) {
            let id: RegionId = cached.region.id();
            self.id_to_ver_id.remove(&id);
            self.key_to_ver_id.remove(&cached.region.region.start_key);
        } else {
            assert(self@.regions =~= old(self)@.regions);
        }
    }
}

/// One of the keys is the given one.
spec fn has_key(keys: Seq<Key>, key: Seq<u8>) -> bool {
    exists|i: int| 0 <= i < keys.len() && (#[trigger] keys[i])@ == key
}

proof fn lemma_has_key_push(keys: Seq<Key>, last: Key)
    ensures
        forall|key: Seq<u8>|
            #![trigger has_key(keys.push(last), key)]
            has_key(keys.push(last), key) <==> has_key(keys, key) || key == last@,
{
    let after = keys.push(last);
    assert forall|key: Seq<u8>|
        #![trigger has_key(after, key)]
        has_key(after, key) <==> has_key(keys, key) || key == last@ by {
        if has_key(keys, key) {
            let i = choose|i: int| 0 <= i < keys.len() && (#[trigger] keys[i])@ == key;
            assert(after[i]@ == key);
        }
        if key == last@ {
            assert(after[keys.len() as int]@ == key);
        }
        if has_key(after, key) {
            let i = choose|i: int| 0 <= i < after.len() && (#[trigger] after[i])@ == key;
            if i < keys.len() {
                assert(keys[i]@ == key);
            }
        }
    }
}

proof fn lemma_contains_push(removed: Seq<RegionVerId>, last: RegionVerId)
    ensures
        forall|v: RegionVerId|
            #![trigger removed.push(last).contains(v)]
            removed.push(last).contains(v) <==> removed.contains(v) || v == last,
{
    let after = removed.push(last);
    assert forall|v: RegionVerId|
        #![trigger after.contains(v)]
        after.contains(v) <==> removed.contains(v) || v == last by {
        if removed.contains(v) {
            let i = choose|i: int| 0 <= i < removed.len() && removed[i] == v;
            assert(after[i] == v);
        }
        if v == last {
            assert(after[removed.len() as int] == v);
        }
    }
}

} // verus!
