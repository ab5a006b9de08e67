//! Why a write conflicts.

use vstd::prelude::*;

verus! {

/// The reason of a write conflict.
#[derive(Clone, Copy, Debug, PartialEq, Eq, Structural)]
pub enum Reason {
    Unknown,
    Optimistic,
    PessimisticRetry,
    SelfRolledBack,
    RcCheckTs,
    LazyUniquenessCheck,
    NotLockedKeyConflict,
}

} // verus!
