//! The stores of the cluster.

use std::collections::HashMap;
use vstd::prelude::*;

use crate::proto::metapb::{Store, StoreState, StoreView};
use crate::region::StoreId;

verus! {

broadcast use vstd::std_specs::hash::group_hash_axioms;

/// The label is that of a columnar engine.
pub open spec fn is_columnar_label(label: (Seq<char>, Seq<char>)) -> bool {
    label.0 == "engine"@ && (label.1 == "tiflash"@ || label.1 == "tiflash_compute"@)
}

/// The store serves the key-value service: its state is known, it is not gone for good, and no
/// label says that it is a columnar engine.
pub open spec fn is_tikv_store(store: StoreView) -> bool {
    &&& StoreState::spec_from_number(store.state as int) is Some
    &&& StoreState::spec_from_number(store.state as int) != Some(StoreState::Tombstone)
    &&& forall|i: int| 0 <= i < store.labels.len() ==> !is_columnar_label(#[trigger] store.labels[i])
}

fn text_is(text: &String, expected: &str) -> (r: bool)
    ensures
        r == (text@ == expected@),
{
    let expected = expected.to_owned();
    *text == expected
}

/// Whether the store serves the key-value service.
pub fn is_valid_tikv_store(store: &Store) -> (r: bool)
    ensures
        r == is_tikv_store(store@),
{
    match StoreState::from_number(store.state) {
        None => {
            return false;
        },
        Some(StoreState::Tombstone) => {
            return false;
        },
        Some(_) => {},
    }
    let mut i: usize = 0;
    while i < store.labels.len()
        invariant
            i <= store.labels.len(),
            forall|k: int| 0 <= k < i ==> !is_columnar_label(#[trigger] store@.labels[k]),
        decreases store.labels.len() - i,
    {
        let label = &store.labels[i];
        assert(store@.labels[i as int] == (label.key@, label.value@));
        if text_is(&label.key, "engine") && (text_is(&label.value, "tiflash") || text_is(
            &label.value,
            "tiflash_compute",
        )) {
            return false;
        }
        i = i + 1;
    }
    true
}

/// The stores after those in the list were told of, in order.
pub open spec fn with_stores(
    stores: Map<StoreId, StoreView>,
    list: Seq<Store>,
) -> Map<StoreId, StoreView>
    decreases list.len(),
{
    if list.len() == 0 {
        stores
    } else {
        with_stores(stores, list.drop_last()).insert(list.last().id, list.last()@)
    }
}

/// The stores that the placement driver has told of.
#[derive(Debug)]
pub struct StoreCache {
    stores: HashMap<StoreId, Store>,
}

impl View for StoreCache {
    type V = Map<StoreId, StoreView>;

    closed spec fn view(&self) -> Map<StoreId, StoreView> {
        self.stores@.map_values(|store: Store| store@)
    }
}

impl StoreCache {
    /// No stores.
    pub fn new() -> (r: Self)
        ensures
            r@ == Map::<StoreId, StoreView>::empty(),
    {
        let r = StoreCache { stores: HashMap::new() };
        assert(r@ =~= Map::<StoreId, StoreView>::empty());
        r
    }

    /// The store with the given id.
    pub fn get(&self, id: StoreId) -> (r: Option<Store>)
        ensures
            r is Some <==> self@.contains_key(id),
            r is Some ==> r->0@ == self@[id],
    {
        match self.stores.get(&id) {
            Some(store) => Some(store.clone()),
            None => None,
        }
    }

    /// Set what is known of a store.
    pub fn insert(&mut self, id: StoreId, store: Store)
        ensures
            final(self)@ == old(self)@.insert(id, store@),
    {
        let ghost before = self@;
        self.stores.insert(id, store);
        assert(self@ =~= before.insert(id, store@));
    }

    /// Forget a store.
    pub fn remove(&mut self, id: StoreId)
        ensures
            final(self)@ == old(self)@.remove(id),
    {
        let ghost before = self@;
        self.stores.remove(&id);
        assert(self@ =~= before.remove(id));
    }

    /// Remember the stores that serve the key-value service, and hand them back.
    pub fn insert_all(&mut self, stores: Vec<Store>) -> (r: Vec<Store>)
        ensures
            r@ == stores@.filter(|store: Store| is_tikv_store(store@)),
            final(self)@ == with_stores(old(self)@, r@),
    {
        let ghost before = self@;
        let ghost serves = |store: Store| is_tikv_store(store@);
        let mut r: Vec<Store> = Vec::new();
        assert(stores@.take(0).filter(serves) =~= r@) by {
            reveal(Seq::filter);
        }
        for store in iter: stores
            invariant
                iter.seq() == stores@,
                serves == (|store: Store| is_tikv_store(store@)),
                r@ == stores@.take(iter.index() as int).filter(serves),
                self@ == with_stores(before, r@),
        {
            let ghost i = iter.index() as int;
            proof {
                let next = stores@.take(i + 1);
                assert(next.drop_last() =~= stores@.take(i));
                assert(next.last() == store);
                reveal(Seq::filter);
            }
            if is_valid_tikv_store(&store) {
                self.insert(store.id, store.clone());
                let ghost kept = r@;
                r.push(store);
                proof {
                    assert(r@.drop_last() =~= kept);
                }
            }
        }
        assert(stores@.take(stores@.len() as int) =~= stores@);
        r
    }
}

} // verus!
