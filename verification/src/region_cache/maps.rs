//! The maps that the region cache is made of.

use vstd::prelude::*;

use crate::kv::key::Key;
use crate::kv::order::{
    bytes_eq, bytes_lt, lemma_lex_chain, lemma_lex_irreflexive, lemma_lex_not_lt, lex_le, lex_lt,
};
use crate::region::RegionVerId;

verus! {

/// The entry at `i` has the given key.
spec fn entry_at<K, V>(entries: Seq<(K, V)>, i: int, key: K) -> bool {
    0 <= i < entries.len() && entries[i].0 == key
}

/// No key occurs twice.
spec fn keys_differ<K, V>(entries: Seq<(K, V)>) -> bool {
    forall|i: int, j: int| 0 <= i < j < entries.len() ==> entries[i].0 != entries[j].0
}

/// The map that a sequence of entries stands for.
spec fn entries_map<K, V>(entries: Seq<(K, V)>) -> Map<K, V> {
    Map::new(
        |key: K| exists|i: int| entry_at(entries, i, key),
        |key: K| entries[choose|i: int| entry_at(entries, i, key)].1,
    )
}

proof fn lemma_entry<K, V>(entries: Seq<(K, V)>, i: int)
    requires
        keys_differ(entries),
        0 <= i < entries.len(),
    ensures
        entries_map(entries).contains_key(entries[i].0),
        entries_map(entries)[entries[i].0] == entries[i].1,
{
    let key = entries[i].0;
    assert(entry_at(entries, i, key));
    let j = choose|j: int| entry_at(entries, j, key);
    assert(i == j);
}

/// A map is the one that the entries stand for if it holds all of them and nothing else.
proof fn lemma_is_map<K, V>(entries: Seq<(K, V)>, map: Map<K, V>)
    requires
        keys_differ(entries),
        forall|i: int|
            0 <= i < entries.len() ==> map.contains_key((#[trigger] entries[i]).0)
                && map[entries[i].0] == entries[i].1,
        forall|key: K| #[trigger]
            map.contains_key(key) ==> exists|i: int| entry_at(entries, i, key),
    ensures
        entries_map(entries) == map,
{
    assert forall|key: K| #[trigger] map.contains_key(key) implies entries_map(
        entries,
    ).contains_key(key) && entries_map(entries)[key] == map[key] by {
        let i = choose|i: int| entry_at(entries, i, key);
        lemma_entry(entries, i);
    }
    assert forall|key: K| #[trigger] entries_map(entries).contains_key(key) implies map.contains_key(
        key,
    ) by {
        let i = choose|i: int| entry_at(entries, i, key);
        assert(map.contains_key(entries[i].0));
    }
    assert(entries_map(entries) =~= map);
}

proof fn lemma_update<K, V>(entries: Seq<(K, V)>, i: int, value: V)
    requires
        keys_differ(entries),
        0 <= i < entries.len(),
    ensures
        keys_differ(entries.update(i, (entries[i].0, value))),
        entries_map(entries.update(i, (entries[i].0, value))) == entries_map(entries).insert(
            entries[i].0,
            value,
        ),
{
    let key = entries[i].0;
    let after = entries.update(i, (key, value));
    let map = entries_map(entries).insert(key, value);
    assert forall|a: int, b: int| 0 <= a < b < after.len() implies after[a].0 != after[b].0 by {
        assert(after[a].0 == entries[a].0);
        assert(after[b].0 == entries[b].0);
    }
    assert forall|j: int| 0 <= j < after.len() implies map.contains_key((#[trigger] after[j]).0)
        && map[after[j].0] == after[j].1 by {
        lemma_entry(entries, j);
    }
    assert forall|k: K| #[trigger] map.contains_key(k) implies exists|j: int|
        entry_at(after, j, k) by {
        if k == key {
            assert(entry_at(after, i, k));
        } else {
            assert(entries_map(entries).contains_key(k));
            let j = choose|j: int| entry_at(entries, j, k);
            assert(entry_at(after, j, k));
        }
    }
    lemma_is_map(after, map);
}

proof fn lemma_insert<K, V>(entries: Seq<(K, V)>, i: int, key: K, value: V)
    requires
        keys_differ(entries),
        0 <= i <= entries.len(),
        !entries_map(entries).contains_key(key),
    ensures
        keys_differ(entries.insert(i, (key, value))),
        entries_map(entries.insert(i, (key, value))) == entries_map(entries).insert(key, value),
{
    let after = entries.insert(i, (key, value));
    let map = entries_map(entries).insert(key, value);
    assert forall|j: int| 0 <= j < entries.len() implies (#[trigger] entries[j]).0 != key by {
        assert(entry_at(entries, j, entries[j].0));
        if entries[j].0 == key {
            assert(entries_map(entries).contains_key(key));
        }
    }
    assert forall|j: int| 0 <= j < after.len() implies #[trigger] after[j] == (if j < i {
        entries[j]
    } else if j == i {
        (key, value)
    } else {
        entries[j - 1]
    }) by {}
    assert(keys_differ(after));
    assert forall|j: int| 0 <= j < after.len() implies map.contains_key((#[trigger] after[j]).0)
        && map[after[j].0] == after[j].1 by {
        if j < i {
            lemma_entry(entries, j);
        } else if j > i {
            lemma_entry(entries, j - 1);
        }
    }
    assert forall|k: K| #[trigger] map.contains_key(k) implies exists|j: int|
        entry_at(after, j, k) by {
        if k == key {
            assert(entry_at(after, i, k));
        } else {
            assert(entries_map(entries).contains_key(k));
            let j = choose|j: int| entry_at(entries, j, k);
            if j < i {
                assert(entry_at(after, j, k));
            } else {
                assert(entry_at(after, j + 1, k));
            }
        }
    }
    lemma_is_map(after, map);
}

proof fn lemma_remove<K, V>(entries: Seq<(K, V)>, i: int)
    requires
        keys_differ(entries),
        0 <= i < entries.len(),
    ensures
        keys_differ(entries.remove(i)),
        entries_map(entries.remove(i)) == entries_map(entries).remove(entries[i].0),
{
    let after = entries.remove(i);
    let map = entries_map(entries).remove(entries[i].0);
    assert forall|j: int| 0 <= j < after.len() implies #[trigger] after[j] == (if j < i {
        entries[j]
    } else {
        entries[j + 1]
    }) by {}
    assert(keys_differ(after));
    assert forall|j: int| 0 <= j < after.len() implies map.contains_key((#[trigger] after[j]).0)
        && map[after[j].0] == after[j].1 by {
        if j < i {
            lemma_entry(entries, j);
        } else {
            lemma_entry(entries, j + 1);
        }
    }
    assert forall|k: K| #[trigger] map.contains_key(k) implies exists|j: int|
        entry_at(after, j, k) by {
        assert(entries_map(entries).contains_key(k));
        let j = choose|j: int| entry_at(entries, j, k);
        if j < i {
            assert(entry_at(after, j, k));
        } else {
            assert(entry_at(after, j - 1, k));
        }
    }
    lemma_is_map(after, map);
}

/// A map from region identities to values.
#[derive(Debug)]
pub struct VerIdMap<V> {
    entries: Vec<(RegionVerId, V)>,
}

impl<V> View for VerIdMap<V> {
    type V = Map<RegionVerId, V>;

    closed spec fn view(&self) -> Map<RegionVerId, V> {
        entries_map(self.entries@)
    }
}

impl<V> VerIdMap<V> {
    /// No identity occurs twice.
    pub closed spec fn wf(self) -> bool {
        keys_differ(self.entries@)
    }

    /// An empty map.
    pub fn new() -> (r: Self)
        ensures
            r.wf(),
            r@ == Map::<RegionVerId, V>::empty(),
    {
        let r = VerIdMap { entries: Vec::new() };
        assert(r@ =~= Map::<RegionVerId, V>::empty());
        r
    }

    fn position(&self, ver_id: RegionVerId) -> (r: Option<usize>)
        requires
            self.wf(),
        ensures
            match r {
                Some(i) => entry_at(self.entries@, i as int, ver_id) && self@.contains_key(ver_id)
                    && self@[ver_id] == self.entries@[i as int].1,
                None => !self@.contains_key(ver_id),
            },
    {
        let mut i: usize = 0;
        while i < self.entries.len()
            invariant
                i <= self.entries.len(),
                self.wf(),
                forall|k: int| 0 <= k < i ==> self.entries@[k].0 != ver_id,
            decreases self.entries.len() - i,
        {
            if self.entries[i].0 == ver_id {
                proof {
                    lemma_entry(self.entries@, i as int);
                }
                return Some(i);
            }
            i = i + 1;
        }
        None
    }

    /// The value of an identity.
    pub fn get(&self, ver_id: RegionVerId) -> (r: Option<&V>)
        requires
            self.wf(),
        ensures
            match r {
                Some(value) => self@.contains_key(ver_id) && *value == self@[ver_id],
                None => !self@.contains_key(ver_id),
            },
    {
        match self.position(ver_id) {
            Some(i) => Some(&self.entries[i].1),
            None => None,
        }
    }

    /// The value of an identity, to be changed in place.
    pub fn get_mut(&mut self, ver_id: RegionVerId) -> (r: Option<&mut V>)
        requires
            old(self).wf(),
        ensures
            match r {
                Some(value) => {
                    &&& old(self)@.contains_key(ver_id)
                    &&& *value == old(self)@[ver_id]
                    &&& final(self).wf()
                    &&& final(self)@ == old(self)@.insert(ver_id, *final(value))
                },
                None => !old(self)@.contains_key(ver_id) && *final(self) == *old(self),
            },
    {
        match self.position(ver_id) {
            Some(i) => {
                proof {
                    let entries = self.entries@;
                    assert forall|value: V|
                        keys_differ(#[trigger] entries.update(i as int, (ver_id, value)))
                            && entries_map(entries.update(i as int, (ver_id, value)))
                            == entries_map(entries).insert(ver_id, value) by {
                        lemma_update(entries, i as int, value);
                    }
                }
                Some(&mut self.entries[i].1)
            },
            None => None,
        }
    }

    /// Set the value of an identity.
    pub fn insert(&mut self, ver_id: RegionVerId, value: V)
        requires
            old(self).wf(),
        ensures
            final(self).wf(),
            final(self)@ == old(self)@.insert(ver_id, value),
    {
        let ghost before = self.entries@;
        match self.position(ver_id) {
            Some(i) => {
                self.entries[i] = (ver_id, value);
                proof {
                    lemma_update(before, i as int, value);
                }
            },
            None => {
                self.entries.push((ver_id, value));
                proof {
                    lemma_insert(before, before.len() as int, ver_id, value);
                    assert(before.insert(before.len() as int, (ver_id, value)) =~= before.push(
                        (ver_id, value),
                    ));
                }
            },
        }
    }

    /// Take an identity out of the map.
    pub fn remove(&mut self, ver_id: RegionVerId) -> (r: Option<V>)
        requires
            old(self).wf(),
        ensures
            final(self).wf(),
            final(self)@ == old(self)@.remove(ver_id),
            match r {
                Some(value) => old(self)@.contains_key(ver_id) && value == old(self)@[ver_id],
                None => !old(self)@.contains_key(ver_id),
            },
    {
        let ghost before = self.entries@;
        match self.position(ver_id) {
            Some(i) => {
                proof {
                    lemma_remove(before, i as int);
                }
                let entry = self.entries.remove(i);
                Some(entry.1)
            },
            None => {
                assert(self@.remove(ver_id) =~= self@);
                None
            },
        }
    }
}

/// A map from start keys to region identities, in the order of the keys.
#[derive(Debug)]
pub struct StartKeyMap {
    entries: Vec<(Key, RegionVerId)>,
}

impl View for StartKeyMap {
    type V = Map<Seq<u8>, RegionVerId>;

    closed spec fn view(&self) -> Map<Seq<u8>, RegionVerId> {
        entries_map(self.sorted())
    }
}

/// The keys rise.
spec fn keys_rise(entries: Seq<(Seq<u8>, RegionVerId)>) -> bool {
    forall|i: int, j: int| 0 <= i < j < entries.len() ==> lex_lt(entries[i].0, entries[j].0)
}

proof fn lemma_rising_keys_differ(entries: Seq<(Seq<u8>, RegionVerId)>)
    requires
        keys_rise(entries),
    ensures
        keys_differ(entries),
{
    assert forall|i: int, j: int| 0 <= i < j < entries.len() implies entries[i].0
        != entries[j].0 by {
        lemma_lex_irreflexive(entries[i].0);
    }
}

impl StartKeyMap {
    /// The entries in the order of their keys.
    pub closed spec fn sorted(self) -> Seq<(Seq<u8>, RegionVerId)> {
        self.entries@.map_values(|entry: (Key, RegionVerId)| (entry.0@, entry.1))
    }

    /// The entries are in order.
    pub closed spec fn wf(self) -> bool {
        keys_rise(self.sorted())
    }

    /// The entries rise by their keys, and the map holds just them.
    pub proof fn lemma_sorted(self)
        requires
            self.wf(),
        ensures
            forall|i: int, j: int|
                0 <= i < j < self.sorted().len() ==> lex_lt(
                    #[trigger] self.sorted()[i].0,
                    #[trigger] self.sorted()[j].0,
                ),
            forall|i: int|
                0 <= i < self.sorted().len() ==> self@.contains_key(
                    (#[trigger] self.sorted()[i]).0,
                ) && self@[self.sorted()[i].0] == self.sorted()[i].1,
            forall|key: Seq<u8>| #[trigger]
                self@.contains_key(key) ==> exists|i: int|
                    0 <= i < self.sorted().len() && (#[trigger] self.sorted()[i]).0 == key,
    {
        let entries = self.sorted();
        lemma_rising_keys_differ(entries);
        assert forall|i: int| 0 <= i < entries.len() implies self@.contains_key(
            (#[trigger] entries[i]).0,
        ) && self@[entries[i].0] == entries[i].1 by {
            lemma_entry(entries, i);
        }
        assert forall|key: Seq<u8>| #[trigger] self@.contains_key(key) implies exists|i: int|
            0 <= i < entries.len() && (#[trigger] entries[i]).0 == key by {
            let i = choose|i: int| entry_at(entries, i, key);
            assert(entries[i].0 == key);
        }
    }

    /// An empty map.
    pub fn new() -> (r: Self)
        ensures
            r.wf(),
            r@ == Map::<Seq<u8>, RegionVerId>::empty(),
    {
        let r = StartKeyMap { entries: Vec::new() };
        assert(r@ =~= Map::<Seq<u8>, RegionVerId>::empty());
        r
    }

    /// The number of entries.
    pub fn len(&self) -> (r: usize)
        ensures
            r == self.sorted().len(),
    {
        self.entries.len()
    }

    /// The key of the entry with the given index.
    pub fn key_at(&self, i: usize) -> (r: &Key)
        requires
            i < self.sorted().len(),
        ensures
            r@ == self.sorted()[i as int].0,
    {
        &self.entries[i].0
    }

    /// The identity of the entry with the given index.
    pub fn ver_id_at(&self, i: usize) -> (r: RegionVerId)
        requires
            i < self.sorted().len(),
        ensures
            r == self.sorted()[i as int].1,
    {
        self.entries[i].1
    }

    /// The number of entries whose keys come before the given one.
    pub fn count_before(&self, key: &[u8]) -> (r: usize)
        requires
            self.wf(),
        ensures
            r <= self.sorted().len(),
            forall|i: int| 0 <= i < r ==> lex_lt(#[trigger] self.sorted()[i].0, key@),
            forall|i: int|
                r <= i < self.sorted().len() ==> !lex_lt(#[trigger] self.sorted()[i].0, key@),
    {
        let mut i: usize = 0;
        while i < self.entries.len() && bytes_lt(&self.entries[i].0.0, key)
            invariant
                i <= self.entries.len(),
                forall|k: int| 0 <= k < i ==> lex_lt(#[trigger] self.sorted()[k].0, key@),
            decreases self.entries.len() - i,
        {
            assert(self.sorted()[i as int].0 == self.entries@[i as int].0@);
            i = i + 1;
        }
        proof {
            if i < self.entries.len() {
                assert(!lex_lt(self.sorted()[i as int].0, key@));
                assert forall|k: int| i <= k < self.sorted().len() implies !lex_lt(
                    #[trigger] self.sorted()[k].0,
                    key@,
                ) by {
                    if lex_lt(self.sorted()[k].0, key@) && k > i {
                        lemma_lex_chain(self.sorted()[i as int].0, self.sorted()[k].0, key@);
                    }
                }
            }
        }
        i
    }

    /// The identity of the entry with the last key that does not come after the given one.
    pub fn floor(&self, key: &[u8]) -> (r: Option<RegionVerId>)
        requires
            self.wf(),
        ensures
            match r {
                Some(ver_id) => exists|start: Seq<u8>|
                    is_floor(self@, key@, start) && self@[start] == ver_id,
                None => forall|start: Seq<u8>|
                    self@.contains_key(start) ==> !lex_le(start, key@),
            },
    {
        let n: usize = self.count_before(key);
        proof {
            self.lemma_sorted();
        }
        let ghost entries = self.sorted();
        let at: usize = if n < self.entries.len() && bytes_eq(&self.entries[n].0.0, key) {
            n
        } else if n > 0 {
            n - 1
        } else {
            proof {
                assert forall|start: Seq<u8>| self@.contains_key(start) implies !lex_le(
                    start,
                    key@,
                ) by {
                    let i = choose|i: int| 0 <= i < entries.len() && (#[trigger] entries[i]).0
                        == start;
                    if start == key@ && i > 0 {
                        assert(!lex_lt(entries[0].0, key@));
                        assert(lex_lt(entries[0].0, entries[i].0));
                    }
                    if i == 0 && start == key@ {
                        assert(self.entries@[0].0@ == key@);
                    }
                }
            }
            return None;
        };
        proof {
            let start = entries[at as int].0;
            assert(lex_le(start, key@));
            assert forall|other: Seq<u8>| #[trigger] self@.contains_key(other) && lex_le(
                other,
                key@,
            ) implies lex_le(other, start) by {
                let i = choose|i: int| 0 <= i < entries.len() && (#[trigger] entries[i]).0 == other;
                if i > at {
                    assert(lex_lt(start, other));
                    if at == n {
                        lemma_lex_not_lt(other, key@);
                        lemma_lex_irreflexive(key@);
                        lemma_lex_chain(key@, other, key@);
                    } else {
                        assert(!lex_lt(other, key@));
                        assert(other == key@);
                        if i > n {
                            assert(lex_lt(entries[n as int].0, other));
                        }
                    }
                }
            }
            assert(is_floor(self@, key@, start));
        }
        Some(self.entries[at].1)
    }

    /// Set the identity of a key.
    pub fn insert(&mut self, key: Key, ver_id: RegionVerId)
        requires
            old(self).wf(),
        ensures
            final(self).wf(),
            final(self)@ == old(self)@.insert(key@, ver_id),
    {
        let ghost before = self.sorted();
        let n: usize = self.count_before(&key.0);
        proof {
            lemma_rising_keys_differ(before);
        }
        if n < self.entries.len() && bytes_eq(&self.entries[n].0.0, &key.0) {
            self.entries[n] = (key, ver_id);
            proof {
                assert(before[n as int].0 == key@);
                lemma_update(before, n as int, ver_id);
                assert(self.sorted() =~= before.update(n as int, (key@, ver_id)));
                assert forall|i: int, j: int| 0 <= i < j < before.len() implies lex_lt(
                    self.sorted()[i].0,
                    self.sorted()[j].0,
                ) by {
                    assert(self.sorted()[i].0 == before[i].0);
                    assert(self.sorted()[j].0 == before[j].0);
                }
            }
        } else {
            proof {
                assert forall|i: int| n <= i < before.len() implies lex_lt(
                    key@,
                    #[trigger] before[i].0,
                ) by {
                    lemma_lex_not_lt(before[i].0, key@);
                    if before[i].0 == key@ && i > n {
                        assert(lex_lt(before[n as int].0, before[i].0));
                    }
                }
                if entries_map(before).contains_key(key@) {
                    let i = choose|i: int| entry_at(before, i, key@);
                    lemma_lex_irreflexive(key@);
                    if i < n {
                        assert(lex_lt(before[i].0, key@));
                    } else {
                        assert(lex_lt(key@, before[i].0));
                    }
                }
                lemma_insert(before, n as int, key@, ver_id);
            }
            self.entries.insert(n, (key, ver_id));
            proof {
                let after = before.insert(n as int, (key@, ver_id));
                assert(self.sorted() =~= after);
                assert forall|i: int, j: int| 0 <= i < j < after.len() implies lex_lt(
                    after[i].0,
                    after[j].0,
                ) by {
                    if i < n && j == n {
                        assert(lex_lt(before[i].0, key@));
                    } else if i == n {
                        assert(lex_lt(key@, before[j - 1].0));
                    } else if i < n && j > n {
                        assert(lex_lt(before[i].0, before[j - 1].0));
                    } else if i > n {
                        assert(lex_lt(before[i - 1].0, before[j - 1].0));
                    }
                }
            }
        }
    }

    /// Take a key out of the map.
    pub fn remove(&mut self, key: &[u8])
        requires
            old(self).wf(),
        ensures
            final(self).wf(),
            final(self)@ == old(self)@.remove(key@),
    {
        let ghost before = self.sorted();
        let n: usize = self.count_before(key);
        proof {
            lemma_rising_keys_differ(before);
        }
        if n < self.entries.len() && bytes_eq(&self.entries[n].0.0, key) {
            let _ = self.entries.remove(n);
            proof {
                assert(before[n as int].0 == key@);
                lemma_remove(before, n as int);
                assert(self.sorted() =~= before.remove(n as int));
            }
        } else {
            proof {
                if entries_map(before).contains_key(key@) {
                    let i = choose|i: int| entry_at(before, i, key@);
                    lemma_lex_irreflexive(key@);
                    if i < n {
                        assert(lex_lt(before[i].0, key@));
                    } else if i > n {
                        assert(!lex_lt(before[n as int].0, key@));
                        assert(lex_lt(before[n as int].0, before[i].0));
                    }
                }
                assert(self@.remove(key@) =~= self@);
            }
        }
    }
}

/// `start` is the last key of the map that does not come after `key`.
pub open spec fn is_floor(
    map: Map<Seq<u8>, RegionVerId>,
    key: Seq<u8>,
    start: Seq<u8>,
) -> bool {
    &&& map.contains_key(start)
    &&& lex_le(start, key)
    &&& forall|other: Seq<u8>| #[trigger]
        map.contains_key(other) && lex_le(other, key) ==> lex_le(other, start)
}

} // verus!
