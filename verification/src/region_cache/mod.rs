//! A cache of the regions and stores that the placement driver has told of.

pub mod asking;
pub mod cache;
pub mod laws;
pub mod loading;
pub mod map;
pub mod maps;
pub mod stores;
pub mod through;
pub mod ttl;
pub mod uses;
