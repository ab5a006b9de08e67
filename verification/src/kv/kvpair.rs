//! Key/value pairs.

use vstd::prelude::*;

use crate::kv::key::Key;

verus! {

/// A key/value pair.
#[derive(Debug, Default, PartialEq, Eq)]
pub struct KvPair {
    pub key: Key,
    pub value: Vec<u8>,
}

} // verus!
