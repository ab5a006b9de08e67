//! Errors, and the text that describes them.

pub mod error_laws;
pub mod errors;
pub mod text;
pub mod text_laws;
pub mod vectors;
