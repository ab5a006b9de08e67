//! Transactions and their locks.

pub mod cleanup;
pub mod expiry;
pub mod lock;
pub mod mutation;
pub mod removals;
pub mod resolutions;
pub mod resolve;
pub mod resolver;
pub mod secondaries;
pub mod status;
