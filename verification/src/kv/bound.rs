//! An end of a range of keys.

use vstd::prelude::*;

use crate::kv::key::Key;

verus! {

/// An end of a range: with the key itself, without it, or without an end.
#[derive(Clone, Debug, PartialEq, Eq, Hash)]
pub enum Bound<T> {
    Included(T),
    Excluded(T),
    Unbounded,
}

impl Bound<Key> {
    /// The bound with its key taken as a byte string.
    pub open spec fn bytes(self) -> Bound<Seq<u8>> {
        match self {
            Bound::Included(key) => Bound::Included(key@),
            Bound::Excluded(key) => Bound::Excluded(key@),
            Bound::Unbounded => Bound::Unbounded,
        }
    }
}

} // verus!
