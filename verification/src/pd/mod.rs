//! What the client makes of the answers of the placement driver.

pub mod client;
pub mod decode;
pub mod decode_laws;
pub mod group_laws;
pub mod groups;
pub mod retry;
pub mod retry_laws;
pub mod runs;
