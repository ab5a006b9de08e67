pub mod backoff;
pub mod common;
pub mod interceptor;
pub mod kv;
pub mod pd;
pub mod proto;
pub mod region;
pub mod region_cache;
pub mod request;
pub mod request_context;
pub mod store;
pub mod timestamp;
pub mod transaction;
