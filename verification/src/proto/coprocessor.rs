//! Coprocessor requests.

use vstd::prelude::*;

use crate::proto::errorpb;
use crate::proto::kvrpcpb::LockInfo;

verus! {

/// The answer to a coprocessor request.
#[derive(Debug, Default, PartialEq, Eq)]
pub struct Response {
    pub data: Vec<u8>,
    pub region_error: Option<errorpb::Error>,
    pub locked: Option<LockInfo>,
    pub other_error: String,
}

} // verus!
