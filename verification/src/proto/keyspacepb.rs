//! Keyspaces.

use vstd::prelude::*;

verus! {

/// The state of a keyspace.
#[derive(Clone, Copy, Debug, PartialEq, Eq, Structural)]
pub enum KeyspaceState {
    Enabled,
    Disabled,
    Archived,
    Tombstone,
}

/// What the placement driver knows of a keyspace.
#[derive(Clone, Debug, Default, PartialEq, Eq)]
pub struct KeyspaceMeta {
    pub id: u32,
    pub name: String,
    pub state: i32,
}

} // verus!
