//! What a transaction does to a key.

use vstd::prelude::*;

use crate::kv::key::Key;

verus! {

/// A write of a transaction.
#[derive(Debug, PartialEq, Eq)]
pub enum Mutation {
    Put(Key, Vec<u8>),
    Delete(Key),
}

} // verus!
