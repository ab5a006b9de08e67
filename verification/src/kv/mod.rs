//! Keys, values and ranges.

pub mod bound;
pub mod bound_range;
pub mod codec;
pub mod format;
pub mod key;
pub mod key_laws;
pub mod kvpair;
pub mod order;
