//! Which peers reads go to.

use vstd::prelude::*;

use crate::request_context::{clone_text, text_view};

verus! {

/// The peers that reads may go to.
#[derive(Clone, Copy, Debug, PartialEq, Eq, Structural)]
pub enum ReplicaReadType {
    Leader,
    Follower,
    Mixed,
    Learner,
    PreferLeader,
}

/// Which peers reads go to, and how they are to be served.
#[derive(Debug, PartialEq, Eq)]
pub struct ReadRouting {
    pub replica_read: ReplicaReadType,
    pub stale_read: bool,
    /// What the choice among several peers depends on.
    pub seed: u32,
    /// The source that the caller has given.
    pub request_source: Option<String>,
}

/// What a [`ReadRouting`] holds.
#[verifier::ext_equal]
pub struct ReadRoutingView {
    pub replica_read: ReplicaReadType,
    pub stale_read: bool,
    pub seed: u32,
    pub request_source: Option<Seq<char>>,
}

impl View for ReadRouting {
    type V = ReadRoutingView;

    open spec fn view(&self) -> ReadRoutingView {
        ReadRoutingView {
            replica_read: self.replica_read,
            stale_read: self.stale_read,
            seed: self.seed,
            request_source: text_view(self.request_source),
        }
    }
}

impl Default for ReadRouting {
    fn default() -> (r: Self)
        ensures
            r@ == (ReadRoutingView {
                replica_read: ReplicaReadType::Leader,
                stale_read: false,
                seed: 0,
                request_source: None,
            }),
    {
        ReadRouting {
            replica_read: ReplicaReadType::Leader,
            stale_read: false,
            seed: 0,
            request_source: None,
        }
    }
}

impl Clone for ReadRouting {
    fn clone(&self) -> (r: Self)
        ensures
            r@ == self@,
    {
        ReadRouting {
            replica_read: self.replica_read,
            stale_read: self.stale_read,
            seed: self.seed,
            request_source: clone_text(&self.request_source),
        }
    }
}

} // verus!
