//! A request to one shard of a plan, from the choice of a peer to its end or its next attempt.

use vstd::prelude::*;

use crate::backoff::Backoff;
use crate::common::errors::{Error, Result};
use crate::interceptor::{replica_kind, replica_kind_for_peer, replica_kind_str, ReplicaKind};
use crate::proto::errorpb;
use crate::proto::metapb::Peer;
use crate::region::{RegionId, RegionVerId, RegionWithLeader, RegionWithLeaderView, StoreId};
use crate::request::region_error::{handle_region_error, region_error_step, RegionErrorStep};
use crate::request_context::text_view;
use crate::store::errors::Failure;

verus! {

/// How often a stale read is tried while the data is not ready.
pub const NOT_READY_RETRIES: usize = 120;

/// The delay before a stale read is tried again while the data is not ready.
pub const NOT_READY_DELAY_MS: u64 = 200;

/// For how long a store that has failed counts as slow.
pub const SLOW_STORE_MS: u64 = 500;

/// The message of the error that ends a request whose delays are used up.
pub const PENDING_BACKOFF_EXHAUSTED: &'static str =
    "backoff attempts exhausted while applying pending backoff";

/// The peer that a read goes to, and how it is to be served.
#[derive(Clone, Copy, Debug, PartialEq, Eq, Structural)]
pub struct ReadPeer {
    pub target_peer: Peer,
    pub replica_read: bool,
    pub stale_read: bool,
}

/// Where a request goes to, and what goes along with it.
#[derive(Debug, PartialEq, Eq)]
pub struct Target {
    pub read_peer: ReadPeer,
    pub attempt: usize,
    pub replica_kind: ReplicaKind,
    pub request_source: Option<String>,
}

/// What a delay is for.
#[derive(Clone, Copy, Debug, PartialEq, Eq, Structural)]
pub enum DelayReason {
    PendingBackoff,
    StaleReadNotReady,
    Region,
    Grpc,
}

impl DelayReason {
    /// The name under which the delay is counted.
    pub fn label(&self) -> (r: &'static str)
        ensures
            r@ == match self {
                DelayReason::PendingBackoff => "pending_backoff"@,
                DelayReason::StaleReadNotReady => "stale_read_not_ready"@,
                DelayReason::Region => "region"@,
                DelayReason::Grpc => "grpc"@,
            },
    {
        match self {
            DelayReason::PendingBackoff => "pending_backoff",
            DelayReason::StaleReadNotReady => "stale_read_not_ready",
            DelayReason::Region => "region",
            DelayReason::Grpc => "grpc",
        }
    }
}

/// What is to be noted before the next action.
#[derive(Debug, PartialEq)]
pub enum ShardEffect {
    /// Forget the region.
    InvalidateRegion(RegionVerId),
    /// Forget the store.
    InvalidateStore(StoreId),
    /// Send the next request for the region to the same store.
    PinStore { region_id: RegionId, store_id: StoreId },
    /// Let the next request for the region go to any store.
    ClearPinnedStore { region_id: RegionId },
    /// Avoid the store for a while.
    MarkStoreSlow { store_id: StoreId, for_ms: u64 },
    /// Wait before the next request to the store.
    AddPendingBackoff { store_id: StoreId, error: errorpb::Error },
}

/// How a request to a shard ends.
#[derive(Debug, PartialEq)]
pub enum ShardOutcome {
    /// With the response.
    Response,
    /// With errors of keys, which are the shard's result.
    KeyErrors(Vec<Error>),
    /// With an error.
    Failed(Error),
}

impl ShardOutcome {
    /// The results of the shard, given the last response to the request. Errors of keys are one
    /// result among those of the other shards. Any other error is that of the whole request.
    pub fn into_results<R>(self, response: Option<R>) -> (r: Result<Vec<Result<R>>>)
        requires
            self is Response ==> response is Some,
        ensures
            match self {
                ShardOutcome::Response => r is Ok && r->Ok_0@ == seq![
                    Ok::<R, Error>(response->0),
                ],
                ShardOutcome::KeyErrors(errors) => r is Ok && r->Ok_0@ == seq![
                    Err::<R, Error>(Error::MultipleKeyErrors(errors)),
                ],
                ShardOutcome::Failed(error) => r == Err::<Vec<Result<R>>, Error>(error),
            },
    {
        match (self, response) {
            (ShardOutcome::Failed(error), _) => Err(error),
            (ShardOutcome::KeyErrors(errors), _) => Ok(
                vec![Err(Error::MultipleKeyErrors(errors))],
            ),
            (ShardOutcome::Response, Some(response)) => Ok(vec![Ok(response)]),
            (ShardOutcome::Response, None) => Ok(Vec::new()),
        }
    }
}

/// What is to be done next.
#[derive(Debug, PartialEq)]
pub enum ShardAction {
    /// Choose the peer that the source of the request is named after.
    SelectSourcePeer,
    /// Find the client of the peer's store, and prepare the request for it.
    MapRegion(Target),
    /// See whether the store is to be given time.
    TakePendingBackoff { store_id: StoreId },
    /// Send the request.
    Execute,
    /// Tell the region cache of the region's leader.
    UpdateLeader { ver_id: RegionVerId, leader: Peer },
    /// Wait.
    Sleep { delay_ms: u64, reason: DelayReason },
    /// Split the request into shards anew, with the present attempt and the present delays.
    Reshard,
    /// End.
    Return(ShardOutcome),
}

/// What is to be noted, and then done.
#[derive(Debug)]
pub struct ShardStep {
    pub effects: Vec<ShardEffect>,
    pub action: ShardAction,
}

/// What a request to a shard waits for.
#[derive(Debug, PartialEq)]
pub enum ShardPhase {
    /// The choice of the peer.
    Selecting,
    /// The choice of the peer that the source of the request is named after.
    SelectingSource(ReadPeer),
    /// The client of the peer's store.
    Mapping(ReadPeer),
    /// Word of whether the store is to be given time.
    Pending(ReadPeer),
    /// The end of a delay, after which the request is sent.
    Delaying(ReadPeer),
    /// The response.
    Executing(ReadPeer),
    /// Word of whether the region cache has taken the leader.
    UpdatingLeader,
    /// The end of a delay, after which the request is split into shards anew.
    Retrying,
    /// Nothing: the request has ended, or it has been split into shards anew.
    Over,
}

/// What a request to a shard gets to know.
#[derive(Debug)]
pub enum ShardEvent {
    /// The chosen peer.
    PeerSelected(Result<ReadPeer>),
    /// The chosen peer that the source of the request is named after.
    SourcePeerSelected(Result<ReadPeer>),
    /// The client of the peer's store was found, and the request prepared for it.
    RegionMapped(Result<()>),
    /// Whether the store is to be given time.
    PendingBackoffTaken(bool),
    /// The delay is over.
    Slept,
    /// What the response tells of failure, and whether other peers than the leader may serve the
    /// request.
    Executed { executed: Result<Failure>, replica_read_mode: bool },
    /// Whether the region cache has taken the leader.
    LeaderUpdated(Result<()>),
}

/// A request to one shard of a plan.
#[derive(Debug)]
pub struct ShardRun {
    pub region: RegionWithLeader,
    pub backoff: Backoff,
    /// The number of attempts before this one.
    pub attempt: usize,
    /// The source that the caller has given.
    pub request_source: Option<String>,
    pub phase: ShardPhase,
}

/// Whether the error is one of the transport.
pub open spec fn is_transport_error(e: Error) -> bool {
    e is GrpcAPI || e is Grpc
}

/// Whether the error is one of the transport.
pub fn is_grpc_error(e: &Error) -> (r: bool)
    ensures
        r == is_transport_error(*e),
{
    match e {
        Error::GrpcAPI(_) => true,
        Error::Grpc(_) => true,
        _ => false,
    }
}

/// The number of peers that hold data.
pub open spec fn data_peers(peers: Seq<Peer>) -> nat {
    peers.filter(|peer: Peer| !peer.is_witness).len()
}

fn count_data_peers(peers: &Vec<Peer>) -> (r: usize)
    ensures
        r == data_peers(peers@),
{
    let ghost holds_data = |peer: Peer| !peer.is_witness;
    let mut count: usize = 0;
    let mut i: usize = 0;
    proof {
        reveal(Seq::filter);
    }
    while i < peers.len()
        invariant
            i <= peers.len(),
            count <= i,
            holds_data == (|peer: Peer| !peer.is_witness),
            count == peers@.take(i as int).filter(holds_data).len(),
        decreases peers.len() - i,
    {
        proof {
            let before = peers@.take(i as int);
            let after = peers@.take(i + 1);
            assert(after.drop_last() =~= before);
            assert(after.last() == peers@[i as int]);
            reveal(Seq::filter);
        }
        if !peers[i].is_witness {
            count = count + 1;
        }
        i = i + 1;
    }
    assert(peers@.take(i as int) =~= peers@);
    count
}

/// The error asks for the same peer to be tried again.
pub open spec fn keeps_peer(e: errorpb::Error) -> bool {
    e.max_timestamp_not_synced is Some || e.read_index_not_ready is Some
        || e.proposal_in_merging_mode is Some
}

/// The name of the way in which a peer serves reads.
pub open spec fn read_type(kind: ReplicaKind, stale_read: bool) -> Seq<char> {
    if stale_read {
        "stale_"@ + kind.name()
    } else {
        kind.name()
    }
}

/// The source of a request, with word of the peer that it was meant for and, on a later attempt,
/// of the one that it goes to.
pub open spec fn patched_source(
    attempt: usize,
    base: Seq<char>,
    current: ReplicaKind,
    input: Seq<char>,
) -> Seq<char> {
    if attempt == 0 {
        base + "_"@ + input
    } else {
        "retry_"@ + base + "_"@ + current.name() + "_"@ + input
    }
}

/// The source of a request, with word of the peers that it was meant for and goes to.
pub fn patch_request_source(
    attempt: usize,
    leader: &Peer,
    base: &ReadPeer,
    current: ReplicaKind,
    input: &str,
) -> (r: String)
    ensures
        r@ == patched_source(
            attempt,
            read_type(replica_kind(*leader, base.target_peer), base.stale_read),
            current,
            input@,
        ),
{
    let base_kind = replica_kind_for_peer(leader, &base.target_peer);
    let mut source = String::new();
    if attempt > 0 {
        source.append("retry_");
    }
    let ghost start = source@;
    if base.stale_read {
        source.append("stale_");
    }
    source.append(replica_kind_str(base_kind));
    let ghost base_type = read_type(base_kind, base.stale_read);
    assert(source@ =~= start + base_type);
    source.append("_");
    if attempt > 0 {
        source.append(replica_kind_str(current));
        source.append("_");
    }
    source.append(input);
    assert(source@ =~= patched_source(attempt, base_type, current, input@));
    source
}

impl ShardRun {
    /// The run waits for the event.
    pub open spec fn awaits(self, event: ShardEvent) -> bool {
        match event {
            ShardEvent::PeerSelected(_) => self.phase is Selecting,
            ShardEvent::SourcePeerSelected(_) => self.phase is SelectingSource
                && self.region.leader is Some && self.request_source is Some,
            ShardEvent::RegionMapped(_) => self.phase is Mapping,
            ShardEvent::PendingBackoffTaken(_) => self.phase is Pending,
            ShardEvent::Slept => self.phase is Delaying || self.phase is Retrying,
            ShardEvent::Executed { .. } => self.phase is Executing,
            ShardEvent::LeaderUpdated(_) => self.phase is UpdatingLeader,
        }
    }

    /// Nothing is noted, and the run goes on.
    pub open spec fn proceeds(
        self,
        phase: ShardPhase,
        action: ShardAction,
        after: ShardRun,
        step: ShardStep,
    ) -> bool {
        &&& step.effects@ == Seq::<ShardEffect>::empty()
        &&& step.action == action
        &&& after == (ShardRun { phase, ..self })
    }

    /// The run ends.
    pub open spec fn ends(
        self,
        effects: Seq<ShardEffect>,
        outcome: ShardOutcome,
        after: ShardRun,
        step: ShardStep,
    ) -> bool {
        &&& step.effects@ == effects
        &&& step.action == ShardAction::Return(outcome)
        &&& after == (ShardRun { phase: ShardPhase::Over, ..self })
    }

    /// The request is split into shards anew at once.
    pub open spec fn retries_at_once(
        self,
        effects: Seq<ShardEffect>,
        after: ShardRun,
        step: ShardStep,
    ) -> bool {
        &&& step.effects@ == effects
        &&& step.action is Reshard
        &&& after == (ShardRun {
            attempt: (self.attempt + 1) as usize,
            phase: ShardPhase::Over,
            ..self
        })
    }

    /// The request is split into shards anew after the next delay, or ends with the error if there
    /// is none.
    pub open spec fn retries_later(
        self,
        effects: Seq<ShardEffect>,
        attempts: int,
        reason: DelayReason,
        error: Error,
        after: ShardRun,
        step: ShardStep,
    ) -> bool {
        match self.backoff.next_delay() {
            Some(delay_ms) => {
                &&& step.effects@ == effects
                &&& step.action == ShardAction::Sleep { delay_ms, reason }
                &&& after == (ShardRun {
                    backoff: self.backoff.after_next(),
                    attempt: (self.attempt + attempts) as usize,
                    phase: ShardPhase::Retrying,
                    ..self
                })
            },
            None => self.ends(effects, ShardOutcome::Failed(error), after, step),
        }
    }

    /// The region is forgotten, and the store too if the transport has failed. Such an attempt
    /// counts twice.
    pub open spec fn recovers(
        self,
        noted: Seq<ShardEffect>,
        region: RegionVerId,
        store: Option<StoreId>,
        error: Error,
        after: ShardRun,
        step: ShardStep,
    ) -> bool {
        let effects = noted.push(ShardEffect::InvalidateRegion(region)) + (if is_transport_error(
            error,
        ) && store is Some {
            seq![ShardEffect::InvalidateStore(store->0)]
        } else {
            Seq::empty()
        });
        self.retries_later(effects, 2, DelayReason::Grpc, error, after, step)
    }

    /// The request goes to the peer.
    pub open spec fn targets(
        self,
        read_peer: ReadPeer,
        request_source: Option<Seq<char>>,
        after: ShardRun,
        step: ShardStep,
    ) -> bool {
        &&& step.effects@ == Seq::<ShardEffect>::empty()
        &&& step.action is MapRegion
        &&& step.action->MapRegion_0.read_peer == read_peer
        &&& step.action->MapRegion_0.attempt == self.attempt
        &&& step.action->MapRegion_0.replica_kind == replica_kind(
            self.region.leader->0,
            read_peer.target_peer,
        )
        &&& text_view(step.action->MapRegion_0.request_source) == request_source
        &&& after == (ShardRun { phase: ShardPhase::Mapping(read_peer), ..self })
    }

    /// What comes of the chosen peer.
    pub open spec fn on_peer(self, selected: Result<ReadPeer>, after: ShardRun, step: ShardStep) -> bool {
        match selected {
            Err(Error::LeaderNotFound { region }) => self.recovers(
                Seq::empty(),
                region,
                None,
                Error::LeaderNotFound { region },
                after,
                step,
            ),
            Err(error) => self.ends(Seq::empty(), ShardOutcome::Failed(error), after, step),
            Ok(read_peer) => if self.region.leader is None {
                self.recovers(
                    Seq::empty(),
                    self.region@.ver_id(),
                    None,
                    Error::LeaderNotFound { region: self.region@.ver_id() },
                    after,
                    step,
                )
            } else if self.request_source is Some && self.request_source->0@.len() > 0 {
                self.proceeds(
                    ShardPhase::SelectingSource(read_peer),
                    ShardAction::SelectSourcePeer,
                    after,
                    step,
                )
            } else {
                self.targets(read_peer, None, after, step)
            },
        }
    }

    /// What comes of the chosen peer that the source of the request is named after.
    pub open spec fn on_source_peer(
        self,
        selected: Result<ReadPeer>,
        after: ShardRun,
        step: ShardStep,
    ) -> bool {
        let read_peer = self.phase->SelectingSource_0;
        let leader = self.region.leader->0;
        match selected {
            Err(error) => self.ends(Seq::empty(), ShardOutcome::Failed(error), after, step),
            Ok(base) => self.targets(
                read_peer,
                Some(
                    patched_source(
                        self.attempt,
                        read_type(replica_kind(leader, base.target_peer), base.stale_read),
                        replica_kind(leader, read_peer.target_peer),
                        self.request_source->0@,
                    ),
                ),
                after,
                step,
            ),
        }
    }

    /// What comes of the search for the client of the peer's store.
    pub open spec fn on_mapped(self, mapped: Result<()>, after: ShardRun, step: ShardStep) -> bool {
        let read_peer = self.phase->Mapping_0;
        match mapped {
            Err(Error::LeaderNotFound { region }) => self.recovers(
                Seq::empty(),
                region,
                None,
                Error::LeaderNotFound { region },
                after,
                step,
            ),
            Err(error) => self.ends(Seq::empty(), ShardOutcome::Failed(error), after, step),
            Ok(()) => self.proceeds(
                ShardPhase::Pending(read_peer),
                ShardAction::TakePendingBackoff { store_id: read_peer.target_peer.store_id },
                after,
                step,
            ),
        }
    }

    /// What comes of the word whether the store is to be given time.
    pub open spec fn on_pending(self, pending: bool, after: ShardRun, step: ShardStep) -> bool {
        let read_peer = self.phase->Pending_0;
        if !pending {
            self.proceeds(ShardPhase::Executing(read_peer), ShardAction::Execute, after, step)
        } else {
            match self.backoff.next_delay() {
                Some(delay_ms) => {
                    &&& step.effects@ == Seq::<ShardEffect>::empty()
                    &&& step.action == ShardAction::Sleep {
                        delay_ms,
                        reason: DelayReason::PendingBackoff,
                    }
                    &&& after == (ShardRun {
                        backoff: self.backoff.after_next(),
                        phase: ShardPhase::Delaying(read_peer),
                        ..self
                    })
                },
                None => {
                    &&& step.effects@ == Seq::<ShardEffect>::empty()
                    &&& step.action is Return
                    &&& step.action->Return_0 is Failed
                    &&& step.action->Return_0->Failed_0 is RegionError
                    &&& step.action->Return_0->Failed_0->RegionError_0.message@
                        == PENDING_BACKOFF_EXHAUSTED@
                    &&& step.action->Return_0->Failed_0->RegionError_0.has_no_kind()
                    &&& after == (ShardRun { phase: ShardPhase::Over, ..self })
                },
            }
        }
    }

    /// What comes of the end of a delay.
    pub open spec fn on_slept(self, after: ShardRun, step: ShardStep) -> bool {
        match self.phase {
            ShardPhase::Delaying(read_peer) => self.proceeds(
                ShardPhase::Executing(read_peer),
                ShardAction::Execute,
                after,
                step,
            ),
            _ => self.proceeds(ShardPhase::Over, ShardAction::Reshard, after, step),
        }
    }

    /// The region as the request went to it.
    pub open spec fn asked_region(self) -> RegionWithLeaderView {
        RegionWithLeaderView {
            leader: Some(self.phase->Executing_0.target_peer),
            ..self.region@
        }
    }

    /// What comes of a region error that has been decided on.
    pub open spec fn on_decided(
        self,
        noted: Seq<ShardEffect>,
        invalidate_region: Option<RegionVerId>,
        invalidate_store: Option<StoreId>,
        resolved: bool,
        e: errorpb::Error,
        replica_read_mode: bool,
        after: ShardRun,
        step: ShardStep,
    ) -> bool {
        let store_id = self.phase->Executing_0.target_peer.store_id;
        let effects = noted + (if invalidate_region is Some {
            seq![ShardEffect::InvalidateRegion(invalidate_region->0)]
        } else {
            Seq::empty()
        }) + (if invalidate_store is Some {
            seq![ShardEffect::InvalidateStore(invalidate_store->0)]
        } else {
            Seq::empty()
        });
        if resolved {
            self.retries_at_once(effects, after, step)
        } else if replica_read_mode && e.server_is_busy is Some && self.attempt + 1
            < data_peers(self.region.region.peers@) {
            self.retries_at_once(
                effects.push(ShardEffect::AddPendingBackoff { store_id, error: e }).push(
                    ShardEffect::MarkStoreSlow { store_id, for_ms: SLOW_STORE_MS },
                ),
                after,
                step,
            )
        } else {
            self.retries_later(
                effects,
                1,
                DelayReason::Region,
                Error::RegionError(Box::new(e)),
                after,
                step,
            )
        }
    }

    /// What comes of a region error.
    pub open spec fn on_region_error(
        self,
        e: errorpb::Error,
        replica_read_mode: bool,
        after: ShardRun,
        step: ShardStep,
    ) -> bool {
        let read_peer = self.phase->Executing_0;
        let region_id = self.region.region.id;
        let store_id = read_peer.target_peer.store_id;
        let pin = if keeps_peer(e) {
            ShardEffect::PinStore { region_id, store_id }
        } else {
            ShardEffect::ClearPinnedStore { region_id }
        };
        let failed = ShardOutcome::Failed(Error::RegionError(Box::new(e)));
        if e.data_is_not_ready is Some && read_peer.stale_read {
            if self.attempt >= NOT_READY_RETRIES {
                self.ends(Seq::empty(), failed, after, step)
            } else {
                &&& step.effects@ == Seq::<ShardEffect>::empty()
                &&& step.action == ShardAction::Sleep {
                    delay_ms: NOT_READY_DELAY_MS,
                    reason: DelayReason::StaleReadNotReady,
                }
                &&& after == (ShardRun {
                    attempt: (self.attempt + 1) as usize,
                    phase: ShardPhase::Retrying,
                    ..self
                })
            }
        } else if replica_read_mode && e.stale_command is Some {
            let noted = seq![pin, ShardEffect::ClearPinnedStore { region_id }];
            if self.attempt + 1 >= data_peers(self.region.region.peers@) {
                self.ends(
                    noted.push(ShardEffect::InvalidateRegion(self.region@.ver_id())),
                    failed,
                    after,
                    step,
                )
            } else {
                self.retries_at_once(noted, after, step)
            }
        } else {
            match region_error_step(e, self.asked_region()) {
                RegionErrorStep::UpdateLeader { ver_id, leader } => {
                    &&& step.effects@ == seq![pin]
                    &&& step.action == ShardAction::UpdateLeader { ver_id, leader }
                    &&& after == (ShardRun { phase: ShardPhase::UpdatingLeader, ..self })
                },
                RegionErrorStep::Fail => self.ends(seq![pin], failed, after, step),
                RegionErrorStep::Decided { invalidate_region, invalidate_store, resolved } =>
                    self.on_decided(
                    seq![pin],
                    invalidate_region,
                    invalidate_store,
                    resolved,
                    e,
                    replica_read_mode,
                    after,
                    step,
                ),
            }
        }
    }

    /// What comes of the response.
    pub open spec fn on_executed(
        self,
        executed: Result<Failure>,
        replica_read_mode: bool,
        after: ShardRun,
        step: ShardStep,
    ) -> bool {
        let store_id = self.phase->Executing_0.target_peer.store_id;
        match executed {
            Err(error) => if is_transport_error(error) {
                self.recovers(
                    seq![ShardEffect::MarkStoreSlow { store_id, for_ms: SLOW_STORE_MS }],
                    self.region@.ver_id(),
                    Some(store_id),
                    error,
                    after,
                    step,
                )
            } else {
                self.ends(Seq::empty(), ShardOutcome::Failed(error), after, step)
            },
            Ok(Failure::Keys(errors)) => self.ends(
                Seq::empty(),
                ShardOutcome::KeyErrors(errors),
                after,
                step,
            ),
            Ok(Failure::Region(e)) => self.on_region_error(e, replica_read_mode, after, step),
            Ok(Failure::Absent) => self.ends(
                seq![ShardEffect::ClearPinnedStore { region_id: self.region.region.id }],
                ShardOutcome::Response,
                after,
                step,
            ),
        }
    }

    /// What comes of telling the region cache of the leader.
    pub open spec fn on_leader_updated(
        self,
        updated: Result<()>,
        after: ShardRun,
        step: ShardStep,
    ) -> bool {
        match updated {
            Ok(()) => self.retries_at_once(Seq::empty(), after, step),
            Err(error) => self.ends(
                seq![ShardEffect::InvalidateRegion(self.region@.ver_id())],
                ShardOutcome::Failed(error),
                after,
                step,
            ),
        }
    }

    /// What comes of an event.
    pub open spec fn steps_to(self, event: ShardEvent, after: ShardRun, step: ShardStep) -> bool {
        match event {
            ShardEvent::PeerSelected(selected) => self.on_peer(selected, after, step),
            ShardEvent::SourcePeerSelected(selected) => self.on_source_peer(selected, after, step),
            ShardEvent::RegionMapped(mapped) => self.on_mapped(mapped, after, step),
            ShardEvent::PendingBackoffTaken(pending) => self.on_pending(pending, after, step),
            ShardEvent::Slept => self.on_slept(after, step),
            ShardEvent::Executed { executed, replica_read_mode } => self.on_executed(
                executed,
                replica_read_mode,
                after,
                step,
            ),
            ShardEvent::LeaderUpdated(updated) => self.on_leader_updated(updated, after, step),
        }
    }

    /// A request for a shard of the given region. The peer is to be chosen.
    pub fn start(
        region: RegionWithLeader,
        backoff: Backoff,
        attempt: usize,
        request_source: Option<String>,
    ) -> (r: ShardRun)
        ensures
            r == (ShardRun {
                region,
                backoff,
                attempt,
                request_source,
                phase: ShardPhase::Selecting,
            }),
    {
        ShardRun {
            region,
            backoff,
            attempt,
            request_source,
            phase: ShardPhase::Selecting,
        }
    }

    fn go_on(&mut self, phase: ShardPhase, action: ShardAction) -> (r: ShardStep)
        ensures
            old(self).proceeds(phase, action, *final(self), r),
    {
        self.phase = phase;
        ShardStep { effects: Vec::new(), action }
    }

    fn end(&mut self, effects: Vec<ShardEffect>, outcome: ShardOutcome) -> (r: ShardStep)
        ensures
            old(self).ends(effects@, outcome, *final(self), r),
    {
        self.phase = ShardPhase::Over;
        ShardStep { effects, action: ShardAction::Return(outcome) }
    }

    fn retry_at_once(&mut self, effects: Vec<ShardEffect>) -> (r: ShardStep)
        requires
            old(self).attempt < usize::MAX,
        ensures
            old(self).retries_at_once(effects@, *final(self), r),
    {
        self.attempt = self.attempt + 1;
        self.phase = ShardPhase::Over;
        ShardStep { effects, action: ShardAction::Reshard }
    }

    fn retry_later(
        &mut self,
        effects: Vec<ShardEffect>,
        attempts: usize,
        reason: DelayReason,
        error: Error,
    ) -> (r: ShardStep)
        requires
            old(self).attempt + attempts <= usize::MAX,
        ensures
            old(self).retries_later(effects@, attempts as int, reason, error, *final(self), r),
    {
        match self.backoff.next_delay_ms() {
            Some(delay_ms) => {
                self.attempt = self.attempt + attempts;
                self.phase = ShardPhase::Retrying;
                ShardStep { effects, action: ShardAction::Sleep { delay_ms, reason } }
            },
            None => self.end(effects, ShardOutcome::Failed(error)),
        }
    }

    /// Forget the region, and the store too if the transport has failed.
    fn handle_other_error(
        &mut self,
        noted: Vec<ShardEffect>,
        region: RegionVerId,
        store: Option<StoreId>,
        error: Error,
    ) -> (r: ShardStep)
        requires
            old(self).attempt + 2 <= usize::MAX,
        ensures
            old(self).recovers(noted@, region, store, error, *final(self), r),
    {
        let mut effects = noted;
        effects.push(ShardEffect::InvalidateRegion(region));
        if is_grpc_error(&error) {
            if let Some(store_id) = store {
                effects.push(ShardEffect::InvalidateStore(store_id));
            }
        }
        proof {
            let noted = noted@.push(ShardEffect::InvalidateRegion(region));
            assert(noted + Seq::<ShardEffect>::empty() =~= noted);
            if is_transport_error(error) && store is Some {
                assert(effects@ =~= noted + seq![ShardEffect::InvalidateStore(store->0)]);
            }
        }
        self.retry_later(effects, 2, DelayReason::Grpc, error)
    }

    fn target(&mut self, leader: Peer, read_peer: ReadPeer, request_source: Option<String>) -> (r:
        ShardStep)
        requires
            old(self).region.leader == Some(leader),
        ensures
            old(self).targets(read_peer, text_view(request_source), *final(self), r),
    {
        self.phase = ShardPhase::Mapping(read_peer);
        ShardStep {
            effects: Vec::new(),
            action: ShardAction::MapRegion(
                Target {
                    read_peer,
                    attempt: self.attempt,
                    replica_kind: replica_kind_for_peer(&leader, &read_peer.target_peer),
                    request_source,
                },
            ),
        }
    }

    fn peer_selected(&mut self, selected: Result<ReadPeer>) -> (r: ShardStep)
        requires
            old(self).attempt + 2 <= usize::MAX,
        ensures
            old(self).on_peer(selected, *final(self), r),
    {
        let read_peer = match selected {
            Ok(read_peer) => read_peer,
            Err(Error::LeaderNotFound { region }) => {
                return self.handle_other_error(
                    Vec::new(),
                    region,
                    None,
                    Error::LeaderNotFound { region },
                );
            },
            Err(error) => {
                return self.end(Vec::new(), ShardOutcome::Failed(error));
            },
        };
        let leader = match self.region.leader {
            Some(leader) => leader,
            None => {
                let region = self.region.ver_id();
                return self.handle_other_error(
                    Vec::new(),
                    region,
                    None,
                    Error::LeaderNotFound { region },
                );
            },
        };
        let has_source = match &self.request_source {
            Some(source) => source.as_str().unicode_len() > 0,
            None => false,
        };
        if has_source {
            self.go_on(ShardPhase::SelectingSource(read_peer), ShardAction::SelectSourcePeer)
        } else {
            self.target(leader, read_peer, None)
        }
    }

    fn source_peer_selected(&mut self, read_peer: ReadPeer, selected: Result<ReadPeer>) -> (r:
        ShardStep)
        requires
            old(self).phase == ShardPhase::SelectingSource(read_peer),
            old(self).region.leader is Some,
            old(self).request_source is Some,
        ensures
            old(self).on_source_peer(selected, *final(self), r),
    {
        let base = match selected {
            Ok(base) => base,
            Err(error) => {
                return self.end(Vec::new(), ShardOutcome::Failed(error));
            },
        };
        match (self.region.leader, &self.request_source) {
            (Some(leader), Some(input)) => {
                let kind = replica_kind_for_peer(&leader, &read_peer.target_peer);
                let source = patch_request_source(
                    self.attempt,
                    &leader,
                    &base,
                    kind,
                    input.as_str(),
                );
                self.target(leader, read_peer, Some(source))
            },
            _ => vstd::pervasive::unreached(),
        }
    }

    fn region_mapped(&mut self, read_peer: ReadPeer, mapped: Result<()>) -> (r: ShardStep)
        requires
            old(self).phase == ShardPhase::Mapping(read_peer),
            old(self).attempt + 2 <= usize::MAX,
        ensures
            old(self).on_mapped(mapped, *final(self), r),
    {
        match mapped {
            Ok(()) => self.go_on(
                ShardPhase::Pending(read_peer),
                ShardAction::TakePendingBackoff { store_id: read_peer.target_peer.store_id },
            ),
            Err(Error::LeaderNotFound { region }) => self.handle_other_error(
                Vec::new(),
                region,
                None,
                Error::LeaderNotFound { region },
            ),
            Err(error) => self.end(Vec::new(), ShardOutcome::Failed(error)),
        }
    }

    fn pending_backoff_taken(&mut self, read_peer: ReadPeer, pending: bool) -> (r: ShardStep)
        requires
            old(self).phase == ShardPhase::Pending(read_peer),
        ensures
            old(self).on_pending(pending, *final(self), r),
    {
        if !pending {
            return self.go_on(ShardPhase::Executing(read_peer), ShardAction::Execute);
        }
        match self.backoff.next_delay_ms() {
            Some(delay_ms) => {
                self.phase = ShardPhase::Delaying(read_peer);
                ShardStep {
                    effects: Vec::new(),
                    action: ShardAction::Sleep { delay_ms, reason: DelayReason::PendingBackoff },
                }
            },
            None => {
                let error = errorpb::Error::with_message(PENDING_BACKOFF_EXHAUSTED.to_owned());
                self.end(Vec::new(), ShardOutcome::Failed(Error::RegionError(Box::new(error))))
            },
        }
    }

    fn decided(
        &mut self,
        noted: Vec<ShardEffect>,
        read_peer: ReadPeer,
        invalidate_region: Option<RegionVerId>,
        invalidate_store: Option<StoreId>,
        resolved: bool,
        e: errorpb::Error,
        replica_read_mode: bool,
    ) -> (r: ShardStep)
        requires
            old(self).phase == ShardPhase::Executing(read_peer),
            old(self).attempt + 2 <= usize::MAX,
        ensures
            old(self).on_decided(
                noted@,
                invalidate_region,
                invalidate_store,
                resolved,
                e,
                replica_read_mode,
                *final(self),
                r,
            ),
    {
        let ghost start = noted@;
        let store_id: StoreId = read_peer.target_peer.store_id;
        let mut effects = noted;
        if let Some(ver_id) = invalidate_region {
            effects.push(ShardEffect::InvalidateRegion(ver_id));
        }
        if let Some(store_id) = invalidate_store {
            effects.push(ShardEffect::InvalidateStore(store_id));
        }
        assert(effects@ =~= start + (if invalidate_region is Some {
            seq![ShardEffect::InvalidateRegion(invalidate_region->0)]
        } else {
            Seq::empty()
        }) + (if invalidate_store is Some {
            seq![ShardEffect::InvalidateStore(invalidate_store->0)]
        } else {
            Seq::empty()
        }));
        if resolved {
            return self.retry_at_once(effects);
        }
        if replica_read_mode && e.server_is_busy.is_some() && self.attempt + 1
            < count_data_peers(&self.region.region.peers) {
            effects.push(ShardEffect::AddPendingBackoff { store_id, error: e });
            effects.push(ShardEffect::MarkStoreSlow { store_id, for_ms: SLOW_STORE_MS });
            return self.retry_at_once(effects);
        }
        self.retry_later(effects, 1, DelayReason::Region, Error::RegionError(Box::new(e)))
    }

    fn region_failed(
        &mut self,
        read_peer: ReadPeer,
        e: errorpb::Error,
        replica_read_mode: bool,
    ) -> (r: ShardStep)
        requires
            old(self).phase == ShardPhase::Executing(read_peer),
            old(self).attempt + 2 <= usize::MAX,
        ensures
            old(self).on_region_error(e, replica_read_mode, *final(self), r),
    {
        let region_id: RegionId = self.region.region.id;
        let store_id: StoreId = read_peer.target_peer.store_id;
        if e.data_is_not_ready.is_some() && read_peer.stale_read {
            if self.attempt >= NOT_READY_RETRIES {
                return self.end(
                    Vec::new(),
                    ShardOutcome::Failed(Error::RegionError(Box::new(e))),
                );
            }
            self.attempt = self.attempt + 1;
            self.phase = ShardPhase::Retrying;
            return ShardStep {
                effects: Vec::new(),
                action: ShardAction::Sleep {
                    delay_ms: NOT_READY_DELAY_MS,
                    reason: DelayReason::StaleReadNotReady,
                },
            };
        }
        let pin = if e.max_timestamp_not_synced.is_some() || e.read_index_not_ready.is_some()
            || e.proposal_in_merging_mode.is_some() {
            ShardEffect::PinStore { region_id, store_id }
        } else {
            ShardEffect::ClearPinnedStore { region_id }
        };
        let ghost pinned = pin;
        let mut effects: Vec<ShardEffect> = Vec::new();
        effects.push(pin);
        assert(effects@ =~= seq![pinned]);
        if replica_read_mode && e.stale_command.is_some() {
            effects.push(ShardEffect::ClearPinnedStore { region_id });
            assert(effects@ =~= seq![pinned, ShardEffect::ClearPinnedStore { region_id }]);
            if self.attempt + 1 >= count_data_peers(&self.region.region.peers) {
                effects.push(ShardEffect::InvalidateRegion(self.region.ver_id()));
                return self.end(effects, ShardOutcome::Failed(Error::RegionError(Box::new(e))));
            }
            return self.retry_at_once(effects);
        }
        let asked = self.region.with_leader(read_peer.target_peer);
        match handle_region_error(&e, &asked) {
            RegionErrorStep::UpdateLeader { ver_id, leader } => {
                self.phase = ShardPhase::UpdatingLeader;
                ShardStep { effects, action: ShardAction::UpdateLeader { ver_id, leader } }
            },
            RegionErrorStep::Fail => self.end(
                effects,
                ShardOutcome::Failed(Error::RegionError(Box::new(e))),
            ),
            RegionErrorStep::Decided { invalidate_region, invalidate_store, resolved } =>
                self.decided(
                effects,
                read_peer,
                invalidate_region,
                invalidate_store,
                resolved,
                e,
                replica_read_mode,
            ),
        }
    }

    fn executed(
        &mut self,
        read_peer: ReadPeer,
        executed: Result<Failure>,
        replica_read_mode: bool,
    ) -> (r: ShardStep)
        requires
            old(self).phase == ShardPhase::Executing(read_peer),
            old(self).attempt + 2 <= usize::MAX,
        ensures
            old(self).on_executed(executed, replica_read_mode, *final(self), r),
    {
        let store_id: StoreId = read_peer.target_peer.store_id;
        match executed {
            Err(error) => {
                if !is_grpc_error(&error) {
                    return self.end(Vec::new(), ShardOutcome::Failed(error));
                }
                let mut effects: Vec<ShardEffect> = Vec::new();
                effects.push(ShardEffect::MarkStoreSlow { store_id, for_ms: SLOW_STORE_MS });
                assert(effects@ =~= seq![
                    ShardEffect::MarkStoreSlow { store_id, for_ms: SLOW_STORE_MS },
                ]);
                let region = self.region.ver_id();
                self.handle_other_error(effects, region, Some(store_id), error)
            },
            Ok(Failure::Keys(errors)) => self.end(Vec::new(), ShardOutcome::KeyErrors(errors)),
            Ok(Failure::Region(e)) => self.region_failed(read_peer, e, replica_read_mode),
            Ok(Failure::Absent) => {
                let region_id: RegionId = self.region.region.id;
                let mut effects: Vec<ShardEffect> = Vec::new();
                effects.push(ShardEffect::ClearPinnedStore { region_id });
                assert(effects@ =~= seq![ShardEffect::ClearPinnedStore { region_id }]);
                self.end(effects, ShardOutcome::Response)
            },
        }
    }

    fn leader_updated(&mut self, updated: Result<()>) -> (r: ShardStep)
        requires
            old(self).attempt + 2 <= usize::MAX,
        ensures
            old(self).on_leader_updated(updated, *final(self), r),
    {
        match updated {
            Ok(()) => self.retry_at_once(Vec::new()),
            Err(error) => {
                let mut effects: Vec<ShardEffect> = Vec::new();
                effects.push(ShardEffect::InvalidateRegion(self.region.ver_id()));
                assert(effects@ =~= seq![ShardEffect::InvalidateRegion(self.region@.ver_id())]);
                self.end(effects, ShardOutcome::Failed(error))
            },
        }
    }

    /// Go on with what the run has waited for.
    pub fn step(&mut self, event: ShardEvent) -> (r: ShardStep)
        requires
            old(self).awaits(event),
            old(self).attempt + 2 <= usize::MAX,
        ensures
            old(self).steps_to(event, *final(self), r),
    {
        match event {
            ShardEvent::PeerSelected(selected) => self.peer_selected(selected),
            ShardEvent::SourcePeerSelected(selected) => match self.phase {
                ShardPhase::SelectingSource(read_peer) => self.source_peer_selected(
                    read_peer,
                    selected,
                ),
                _ => vstd::pervasive::unreached(),
            },
            ShardEvent::RegionMapped(mapped) => match self.phase {
                ShardPhase::Mapping(read_peer) => self.region_mapped(read_peer, mapped),
                _ => vstd::pervasive::unreached(),
            },
            ShardEvent::PendingBackoffTaken(pending) => match self.phase {
                ShardPhase::Pending(read_peer) => self.pending_backoff_taken(read_peer, pending),
                _ => vstd::pervasive::unreached(),
            },
            ShardEvent::Slept => match self.phase {
                ShardPhase::Delaying(read_peer) => self.go_on(
                    ShardPhase::Executing(read_peer),
                    ShardAction::Execute,
                ),
                _ => self.go_on(ShardPhase::Over, ShardAction::Reshard),
            },
            ShardEvent::Executed { executed, replica_read_mode } => match self.phase {
                ShardPhase::Executing(read_peer) => self.executed(
                    read_peer,
                    executed,
                    replica_read_mode,
                ),
                _ => vstd::pervasive::unreached(),
            },
            ShardEvent::LeaderUpdated(updated) => self.leader_updated(updated),
        }
    }
}

/// A request that is split into shards anew is a later attempt than the one before, whatever the
/// reason.
pub proof fn law_a_retry_is_a_later_attempt(
    before: ShardRun,
    event: ShardEvent,
    after: ShardRun,
    step: ShardStep,
)
    requires
        before.awaits(event),
        before.attempt + 2 <= usize::MAX,
        before.steps_to(event, after, step),
        before.phase !is Retrying,
        step.action is Reshard || after.phase is Retrying,
    ensures
        before.attempt < after.attempt <= before.attempt + 2,
{
}

/// Every delay uses up one of the delays that are left, except those of a stale read whose data is
/// not ready, which are bounded by the number of attempts. Nothing else uses them up.
pub proof fn law_delays_are_bounded(
    before: ShardRun,
    event: ShardEvent,
    after: ShardRun,
    step: ShardStep,
)
    requires
        before.awaits(event),
        before.attempt + 2 <= usize::MAX,
        before.steps_to(event, after, step),
    ensures
        match step.action {
            ShardAction::Sleep { delay_ms, reason: DelayReason::StaleReadNotReady } => {
                &&& before.attempt < NOT_READY_RETRIES
                &&& after.attempt == before.attempt + 1
                &&& after.backoff == before.backoff
            },
            ShardAction::Sleep { delay_ms, reason } => {
                &&& after.backoff.attempts_left() == before.backoff.attempts_left() - 1
                &&& delay_ms <= before.backoff.max_delay_ms
            },
            _ => after.backoff == before.backoff,
        },
{
}

/// A region error that has been resolved makes the request be tried again at once, at the cost of
/// no delay.
pub proof fn law_a_resolved_error_costs_no_delay(
    before: ShardRun,
    e: errorpb::Error,
    replica_read_mode: bool,
    after: ShardRun,
    step: ShardStep,
)
    requires
        before.phase is Executing,
        before.attempt + 2 <= usize::MAX,
        before.on_region_error(e, replica_read_mode, after, step),
        !(e.data_is_not_ready is Some && before.phase->Executing_0.stale_read),
        !(replica_read_mode && e.stale_command is Some),
        match region_error_step(e, before.asked_region()) {
            RegionErrorStep::Decided { resolved, .. } => resolved,
            _ => false,
        },
    ensures
        step.action is Reshard,
        after.backoff == before.backoff,
        after.attempt == before.attempt + 1,
{
}

/// A stale read whose data is not ready leaves all that is known of regions and stores as it is.
pub proof fn law_an_unready_stale_read_forgets_nothing(
    before: ShardRun,
    e: errorpb::Error,
    replica_read_mode: bool,
    after: ShardRun,
    step: ShardStep,
)
    requires
        before.phase is Executing,
        before.phase->Executing_0.stale_read,
        e.data_is_not_ready is Some,
        before.on_region_error(e, replica_read_mode, after, step),
    ensures
        step.effects@.len() == 0,
        step.action is Return <==> before.attempt >= NOT_READY_RETRIES,
{
}

/// Other peers are tried at once, without a delay, only while there are peers that have not been
/// tried.
pub proof fn law_fast_retries_are_bounded_by_the_peers(
    before: ShardRun,
    e: errorpb::Error,
    after: ShardRun,
    step: ShardStep,
)
    requires
        before.phase is Executing,
        before.attempt + 2 <= usize::MAX,
        before.on_region_error(e, true, after, step),
        !(e.data_is_not_ready is Some && before.phase->Executing_0.stale_read),
        e.stale_command is Some || (e.server_is_busy is Some && region_error_step(
            e,
            before.asked_region(),
        ) == (RegionErrorStep::Decided {
            invalidate_region: None,
            invalidate_store: None,
            resolved: false,
        })),
    ensures
        step.action is Reshard <==> before.attempt + 1 < data_peers(before.region.region.peers@),
{
}

} // verus!
