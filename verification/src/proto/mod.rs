//! The protocol messages that the library reads and writes, as plain data.

pub mod coprocessor;
pub mod deadlock;
pub mod errorpb;
pub mod keyspacepb;
pub mod kvrpcpb;
pub mod metapb;
pub mod pdpb;
