//! Plans: requests, and what is made of their responses.
//!
//! A plan says what is to be sent and what becomes of the answers. Sending is the caller's part:
//! it runs the inner plan and hands the result on to the outer one.

use core::marker::PhantomData;
use vstd::prelude::*;

use crate::backoff::Backoff;
use crate::common::errors::{internal_err, Error, Result};
use crate::common::text::{decimal, with_decimal};
use crate::proto::errorpb;
use crate::proto::kvrpcpb::LockInfo;
use crate::request::read_routing::ReadRouting;
use crate::request::shard_run::{is_grpc_error, is_transport_error};
use crate::request_context::RequestContext;
use crate::store::errors::{take_failure, Failure, HasKeyErrors, HasRegionError, HasRegionErrors};
use crate::store::request::Request;
use crate::store::Store;
use crate::transaction::lock::HasLocks;

verus! {

/// The number of requests that are sent to regions at a time.
pub const MULTI_REGION_CONCURRENCY: usize = 16;

/// The number of requests that are sent to stores at a time.
pub const MULTI_STORES_CONCURRENCY: usize = 16;

/// A plan for how to execute a request.
pub trait Plan: Sized {
    /// What executing the plan comes to.
    type Result;
}

/// Any request that is sent to a store.
pub trait KvRequest: Request {
    /// The expected response to the request.
    type Response: HasKeyErrors + HasLocks;
}

/// A request or a plan that is handled by a store as such, not by a region.
pub trait StoreRequest<C>: Sized {
    /// `after` is the request directed to the store, as far as a kind of request says so.
    open spec fn directed(&self, store: Store<C>, after: Self) -> bool {
        true
    }

    /// Direct the request to the store.
    fn apply_store(&mut self, store: &Store<C>)
        ensures
            old(self).directed(*store, *final(self)),
    ;
}

/// The plan that just sends a request to a store.
#[derive(Debug)]
pub struct Dispatch<Req, C> {
    pub request: Req,
    pub kv_client: Option<C>,
}

impl<Req: Clone, C: Clone> Clone for Dispatch<Req, C> {
    fn clone(&self) -> (r: Self)
        ensures
            cloned(self.request, r.request),
            cloned(self.kv_client, r.kv_client),
    {
        Dispatch { request: self.request.clone(), kv_client: self.kv_client.clone() }
    }
}

impl<Req: KvRequest, C> Plan for Dispatch<Req, C> {
    type Result = Req::Response;
}

impl<Req, C> Dispatch<Req, C> {
    /// The client that the request is to be sent with.
    pub fn client(&self) -> (r: Result<&C>)
        ensures
            match self.kv_client {
                Some(client) => r == Ok::<&C, Error>(&client),
                None => r is Err && r->Err_0.is_internal(
                    "Dispatch plan executed without an attached kv_client"@,
                ),
            },
    {
        match &self.kv_client {
            Some(client) => Ok(client),
            None => Err(internal_err("Dispatch plan executed without an attached kv_client")),
        }
    }
}

impl<Req: StoreRequest<C>, C: Clone> StoreRequest<C> for Dispatch<Req, C> {
    open spec fn directed(&self, store: Store<C>, after: Self) -> bool {
        &&& after.kv_client is Some
        &&& cloned(store.client, after.kv_client->0)
        &&& self.request.directed(store, after.request)
    }

    fn apply_store(&mut self, store: &Store<C>) {
        self.kv_client = Some(store.client.clone());
        self.request.apply_store(store);
    }
}

/// A way to merge responses into a single result.
pub trait Merge<In>: Sized {
    /// The single result.
    type Out;

    /// The responses can be merged. A way that cannot merge all of them says which.
    open spec fn can_merge(&self, input: Seq<Result<In>>) -> bool {
        true
    }

    /// The result is the responses merged, as far as the way to merge them says so.
    open spec fn merges(&self, input: Seq<Result<In>>, out: Result<Self::Out>) -> bool {
        true
    }

    /// Merge responses.
    fn merge(&self, input: Vec<Result<In>>) -> (r: Result<Self::Out>)
        requires
            self.can_merge(input@),
        ensures
            self.merges(input@, r),
    ;
}

/// The plan that merges the responses of another one.
#[derive(Debug)]
pub struct MergeResponse<P, In, M> {
    pub inner: P,
    pub merge: M,
    pub phantom: PhantomData<In>,
}

impl<In, P: Plan<Result = Vec<Result<In>>>, M: Merge<In>> Plan for MergeResponse<P, In, M> {
    type Result = M::Out;
}

impl<P: Clone, In, M: Clone> Clone for MergeResponse<P, In, M> {
    fn clone(&self) -> (r: Self)
        ensures
            cloned(self.inner, r.inner),
            cloned(self.merge, r.merge),
    {
        MergeResponse {
            inner: self.inner.clone(),
            merge: self.merge.clone(),
            phantom: PhantomData,
        }
    }
}

impl<P, In, M: Merge<In>> MergeResponse<P, In, M> {
    /// What becomes of the result of the inner plan.
    pub fn finish(&self, inner: Result<Vec<Result<In>>>) -> (r: Result<M::Out>)
        requires
            inner is Ok ==> self.merge.can_merge(inner->Ok_0@),
        ensures
            match inner {
                Ok(input) => self.merge.merges(input@, r),
                Err(error) => r == Err::<M::Out, Error>(error),
            },
    {
        match inner {
            Ok(input) => self.merge.merge(input),
            Err(error) => Err(error),
        }
    }
}

/// The merge that collects data from the responses into a single one.
#[derive(Clone, Copy, Debug)]
pub struct Collect;

/// The merge that takes the only response, for requests that should have exactly one.
#[derive(Clone, Copy, Debug)]
pub struct CollectSingle;

/// The merge that matches responses with the shards that they came from.
#[derive(Clone, Copy, Debug)]
pub struct CollectWithShard;

/// The merge that fails if any response has, and otherwise gives all of them.
#[derive(Clone, Copy, Debug)]
pub struct CollectError;

impl<T> Merge<T> for CollectSingle {
    type Out = T;

    open spec fn can_merge(&self, input: Seq<Result<T>>) -> bool {
        true
    }

    open spec fn merges(&self, input: Seq<Result<T>>, out: Result<T>) -> bool {
        if input.len() == 1 {
            out == input[0]
        } else {
            out is Err && out->Err_0.is_internal(
                "CollectSingle expected 1 response, got "@ + decimal(input.len()),
            )
        }
    }

    fn merge(&self, input: Vec<Result<T>>) -> (r: Result<T>) {
        let mut input = input;
        if input.len() != 1 {
            let message = with_decimal(
                "CollectSingle expected 1 response, got ",
                input.len() as u64,
            );
            return Err(internal_err(message.as_str()));
        }
        match input.pop() {
            Some(response) => response,
            None => vstd::pervasive::unreached(),
        }
    }
}

/// The position of the first failed response, or the number of responses if none has failed.
pub open spec fn first_failure<T>(input: Seq<Result<T>>) -> nat
    decreases input.len(),
{
    if input.len() == 0 || input[0] is Err {
        0
    } else {
        1 + first_failure(input.skip(1))
    }
}

pub proof fn lemma_first_failure<T>(input: Seq<Result<T>>)
    ensures
        first_failure(input) <= input.len(),
        forall|i: int| 0 <= i < first_failure(input) ==> (#[trigger] input[i]) is Ok,
        first_failure(input) < input.len() ==> input[first_failure(input) as int] is Err,
    decreases input.len(),
{
    if input.len() > 0 && input[0] is Ok {
        let rest = input.skip(1);
        lemma_first_failure(rest);
        assert forall|i: int| 0 <= i < first_failure(input) implies (#[trigger] input[i]) is Ok by {
            if i > 0 {
                assert(input[i] == rest[i - 1]);
            }
        }
    }
}

impl<T> Merge<T> for CollectError {
    type Out = Vec<T>;

    open spec fn can_merge(&self, input: Seq<Result<T>>) -> bool {
        true
    }

    open spec fn merges(&self, input: Seq<Result<T>>, out: Result<Vec<T>>) -> bool {
        let at = first_failure(input);
        if at < input.len() {
            out is Err && out->Err_0 == input[at as int]->Err_0
        } else {
            out is Ok && out->Ok_0@ == input.map_values(|response: Result<T>| response->Ok_0)
        }
    }

    #[verifier::loop_isolation(false)]
    fn merge(&self, input: Vec<Result<T>>) -> (r: Result<Vec<T>>) {
        let ghost responses = input@;
        let ghost value = |response: Result<T>| response->Ok_0;
        proof {
            lemma_first_failure(responses);
        }
        let mut merged: Vec<T> = Vec::new();
        for response in iter: input
            invariant
                iter.seq() == responses,
                iter.index() <= first_failure(responses),
                merged@ == responses.take(iter.index()).map_values(value),
        {
            match response {
                Ok(response) => {
                    merged.push(response);
                    assert(responses.take(iter.index() + 1).map_values(value)
                        =~= responses.take(iter.index()).map_values(value).push(response));
                },
                Err(error) => {
                    return Err(error);
                },
            }
        }
        assert(responses.take(responses.len() as int) =~= responses);
        Ok(merged)
    }
}

/// A way to make a result into another one.
pub trait Process<In>: Sized {
    /// The other result.
    type Out;

    /// The result is the other one processed, as far as the way to process it says so.
    open spec fn processes(&self, input: Result<In>, out: Result<Self::Out>) -> bool {
        true
    }

    /// Process a result.
    fn process(&self, input: Result<In>) -> (r: Result<Self::Out>)
        ensures
            self.processes(input, r),
    ;
}

/// The plan that processes the result of another one.
#[derive(Debug)]
pub struct ProcessResponse<P, Pr> {
    pub inner: P,
    pub processor: Pr,
}

impl<P: Clone, Pr: Clone> Clone for ProcessResponse<P, Pr> {
    fn clone(&self) -> (r: Self)
        ensures
            cloned(self.inner, r.inner),
            cloned(self.processor, r.processor),
    {
        ProcessResponse { inner: self.inner.clone(), processor: self.processor.clone() }
    }
}

impl<P: Plan, Pr: Process<P::Result>> Plan for ProcessResponse<P, Pr> {
    type Result = Pr::Out;
}

impl<P: Plan, Pr: Process<P::Result>> ProcessResponse<P, Pr> {
    /// What becomes of the result of the inner plan.
    pub fn finish(&self, inner: Result<P::Result>) -> (r: Result<Pr::Out>)
        ensures
            self.processor.processes(inner, r),
    {
        self.processor.process(inner)
    }
}

/// The way that each response is processed by default.
#[derive(Clone, Copy, Debug)]
pub struct DefaultProcessor;

/// The plan that makes the errors in the result of another one into an error.
///
/// The errors come from two places: the inner plan may have failed, or its result may hold errors
/// of keys or of regions.
#[derive(Debug)]
pub struct ExtractError<P> {
    pub inner: P,
}

impl<P: Plan> Plan for ExtractError<P> {
    type Result = P::Result;
}

impl<P: Clone> Clone for ExtractError<P> {
    fn clone(&self) -> (r: Self)
        ensures
            cloned(self.inner, r.inner),
    {
        ExtractError { inner: self.inner.clone() }
    }
}

/// Region errors as errors of the client.
pub open spec fn as_region_errors(errors: Seq<errorpb::Error>) -> Seq<Error> {
    errors.map_values(|e: errorpb::Error| Error::RegionError(Box::new(e)))
}

fn into_region_errors(errors: Vec<errorpb::Error>) -> (r: Vec<Error>)
    ensures
        r@ == as_region_errors(errors@),
{
    let ghost input = errors@;
    let mut r: Vec<Error> = Vec::new();
    for e in iter: errors
        invariant
            iter.seq() == input,
            r@ == as_region_errors(input.take(iter.index())),
    {
        r.push(Error::RegionError(Box::new(e)));
        assert(as_region_errors(input.take(iter.index() + 1)) =~= as_region_errors(
            input.take(iter.index()),
        ).push(Error::RegionError(Box::new(e))));
    }
    assert(input.take(input.len() as int) =~= input);
    r
}

impl<P> ExtractError<P> {
    /// What becomes of the result of the inner plan.
    pub fn finish<R: HasKeyErrors + HasRegionErrors>(&self, inner: Result<R>) -> (r: Result<R>)
        ensures
            match inner {
                Err(error) => r == Err::<R, Error>(error),
                Ok(result) => match result.held_key_errors() {
                    Some(errors) => r is Err && r->Err_0 is ExtractedErrors
                        && r->Err_0->ExtractedErrors_0@ == errors,
                    None => match result.held_region_errors() {
                        Some(errors) => r is Err && r->Err_0 is ExtractedErrors
                            && r->Err_0->ExtractedErrors_0@ == as_region_errors(errors),
                        None => r == Ok::<R, Error>(result),
                    },
                },
            },
    {
        let mut result = match inner {
            Ok(result) => result,
            Err(error) => {
                return Err(error);
            },
        };
        match result.key_errors() {
            Some(errors) => Err(Error::ExtractedErrors(errors)),
            None => match result.region_errors() {
                Some(errors) => Err(Error::ExtractedErrors(into_region_errors(errors))),
                None => Ok(result),
            },
        }
    }
}

/// The plan that gives the shard along with the response.
#[derive(Debug)]
pub struct PreserveShard<P, S> {
    pub inner: P,
    pub shard: Option<S>,
}

impl<P: Plan, S> Plan for PreserveShard<P, S> {
    type Result = ResponseWithShard<P::Result, S>;
}

impl<P: Clone, S> Clone for PreserveShard<P, S> {
    fn clone(&self) -> (r: Self)
        ensures
            cloned(self.inner, r.inner),
            r.shard is None,
    {
        PreserveShard { inner: self.inner.clone(), shard: None }
    }
}

impl<P, S: Clone> PreserveShard<P, S> {
    /// What becomes of the result of the inner plan.
    pub fn finish<R>(&self, inner: Result<R>) -> (r: Result<ResponseWithShard<R, S>>)
        ensures
            match inner {
                Err(error) => r == Err::<ResponseWithShard<R, S>, Error>(error),
                Ok(response) => match self.shard {
                    Some(shard) => r is Ok && r->Ok_0.0 == response && cloned(shard, r->Ok_0.1),
                    None => r is Err && r->Err_0.is_internal(
                        "PreserveShard executed without an attached shard"@,
                    ),
                },
            },
    {
        match inner {
            Err(error) => Err(error),
            Ok(response) => match &self.shard {
                Some(shard) => Ok(ResponseWithShard(response, shard.clone())),
                None => Err(internal_err("PreserveShard executed without an attached shard")),
            },
        }
    }
}

/// A response, and the shard that it came from.
#[derive(Debug)]
pub struct ResponseWithShard<Resp, Shard>(pub Resp, pub Shard);

impl<Resp: Clone, Shard: Clone> Clone for ResponseWithShard<Resp, Shard> {
    fn clone(&self) -> (r: Self)
        ensures
            cloned(self.0, r.0),
            cloned(self.1, r.1),
    {
        ResponseWithShard(self.0.clone(), self.1.clone())
    }
}

impl<Resp: HasKeyErrors, Shard> HasKeyErrors for ResponseWithShard<Resp, Shard> {
    open spec fn held_key_errors(&self) -> Option<Seq<Error>> {
        self.0.held_key_errors()
    }

    fn key_errors(&mut self) -> (r: Option<Vec<Error>>)
        ensures
            final(self).1 == old(self).1,
    {
        self.0.key_errors()
    }
}

impl<Resp: HasLocks, Shard> HasLocks for ResponseWithShard<Resp, Shard> {
    open spec fn held_locks(&self) -> Seq<LockInfo> {
        self.0.held_locks()
    }

    fn take_locks(&mut self) -> (r: Vec<LockInfo>)
        ensures
            final(self).1 == old(self).1,
    {
        self.0.take_locks()
    }
}

impl<Resp: HasRegionError, Shard> HasRegionError for ResponseWithShard<Resp, Shard> {
    open spec fn held_region_error(&self) -> Option<errorpb::Error> {
        self.0.held_region_error()
    }

    fn region_error(&mut self) -> (r: Option<errorpb::Error>)
        ensures
            final(self).1 == old(self).1,
    {
        self.0.region_error()
    }
}

/// The plan that splits a request into shards and sends each to its region.
#[derive(Debug)]
pub struct RetryableMultiRegion<P, PdC, T, I> {
    pub inner: P,
    pub pd_client: PdC,
    pub backoff: Backoff,
    pub concurrency: usize,
    /// Give the results of all regions, even if some of them have failed. Otherwise the first
    /// failure is the result.
    pub preserve_region_results: bool,
    pub request_context: RequestContext<T, I>,
    pub read_routing: ReadRouting,
}

impl<P: Plan, PdC, T, I> Plan for RetryableMultiRegion<P, PdC, T, I> {
    type Result = Vec<Result<P::Result>>;
}

impl<P: Clone, PdC: Clone, T, I> Clone for RetryableMultiRegion<P, PdC, T, I> {
    fn clone(&self) -> (r: Self)
        ensures
            cloned(self.inner, r.inner),
            cloned(self.pd_client, r.pd_client),
            r.backoff == self.backoff,
            r.concurrency == self.concurrency,
            r.preserve_region_results == self.preserve_region_results,
            r.request_context@ == self.request_context@,
            r.read_routing@ == self.read_routing@,
    {
        RetryableMultiRegion {
            inner: self.inner.clone(),
            pd_client: self.pd_client.clone(),
            backoff: self.backoff,
            concurrency: self.concurrency,
            preserve_region_results: self.preserve_region_results,
            request_context: self.request_context.clone(),
            read_routing: self.read_routing.clone(),
        }
    }
}

impl<P, PdC, T, I> RetryableMultiRegion<P, PdC, T, I> {
    /// The number of requests that are sent at a time.
    pub fn permits(&self) -> (r: usize)
        ensures
            r == (if self.concurrency > 1 {
                self.concurrency
            } else {
                1
            }),
    {
        if self.concurrency > 1 {
            self.concurrency
        } else {
            1
        }
    }
}

/// The results of the shards of a request, in the order of the shards.
#[derive(Debug)]
pub struct ShardResults<R> {
    pub preserve_region_results: bool,
    pub slots: Vec<Option<Result<Vec<Result<R>>>>>,
}

/// The results of a shard, where a failure of the shard is its only result.
pub open spec fn shard_items<R>(result: Result<Vec<Result<R>>>) -> Seq<Result<R>> {
    match result {
        Ok(items) => items@,
        Err(error) => seq![Err(error)],
    }
}

/// The results of all shards, one after the other.
pub open spec fn all_items<R>(slots: Seq<Option<Result<Vec<Result<R>>>>>) -> Seq<Result<R>>
    decreases slots.len(),
{
    if slots.len() == 0 {
        Seq::empty()
    } else {
        all_items(slots.drop_last()) + shard_items(slots.last()->0)
    }
}

/// The first shard without a result, or the number of shards if there is none.
pub open spec fn first_missing<R>(slots: Seq<Option<Result<Vec<Result<R>>>>>) -> nat
    decreases slots.len(),
{
    if slots.len() == 0 || slots[0] is None {
        0
    } else {
        1 + first_missing(slots.skip(1))
    }
}

pub(crate) proof fn lemma_first_missing<R>(slots: Seq<Option<Result<Vec<Result<R>>>>>)
    ensures
        first_missing(slots) <= slots.len(),
        forall|i: int| 0 <= i < first_missing(slots) ==> (#[trigger] slots[i]) is Some,
        first_missing(slots) < slots.len() ==> slots[first_missing(slots) as int] is None,
    decreases slots.len(),
{
    if slots.len() > 0 && slots[0] is Some {
        let rest = slots.skip(1);
        lemma_first_missing(rest);
        assert forall|i: int| 0 <= i < first_missing(slots) implies (#[trigger] slots[i])
            is Some by {
            if i > 0 {
                assert(slots[i] == rest[i - 1]);
            }
        }
    }
}

impl<R> ShardResults<R> {
    /// No shard has a result yet.
    pub fn new(shard_count: usize, preserve_region_results: bool) -> (r: ShardResults<R>)
        ensures
            r.preserve_region_results == preserve_region_results,
            r.slots@.len() == shard_count,
            forall|i: int| 0 <= i < shard_count ==> (#[trigger] r.slots@[i]) is None,
    {
        let mut slots: Vec<Option<Result<Vec<Result<R>>>>> = Vec::new();
        let mut i: usize = 0;
        while i < shard_count
            invariant
                i <= shard_count,
                slots@.len() == i,
                forall|k: int| 0 <= k < i ==> (#[trigger] slots@[k]) is None,
            decreases shard_count - i,
        {
            slots.push(None);
            i = i + 1;
        }
        ShardResults { preserve_region_results, slots }
    }

    /// Note the result of a shard. A failure that is not to be preserved ends the request.
    pub fn record(&mut self, shard: usize, result: Result<Vec<Result<R>>>) -> (r: Result<()>)
        requires
            shard < old(self).slots@.len(),
        ensures
            final(self).preserve_region_results == old(self).preserve_region_results,
            match result {
                Err(error) if !old(self).preserve_region_results => {
                    &&& r == Err::<(), Error>(error)
                    &&& final(self).slots@ == old(self).slots@
                },
                _ => {
                    &&& r == Ok::<(), Error>(())
                    &&& final(self).slots@ == old(self).slots@.update(shard as int, Some(result))
                },
            },
    {
        match result {
            Err(error) => {
                if !self.preserve_region_results {
                    return Err(error);
                }
                self.slots.set(shard, Some(Err(error)));
            },
            Ok(items) => {
                self.slots.set(shard, Some(Ok(items)));
            },
        }
        Ok(())
    }

    /// The results of all shards, in the order of the shards.
    #[verifier::loop_isolation(false)]
    pub fn finish(self) -> (r: Result<Vec<Result<R>>>)
        ensures
            ({
                let missing = first_missing(self.slots@);
                if missing < self.slots@.len() {
                    r is Err && r->Err_0.is_internal(
                        "RetryableMultiRegion missing shard result at index "@ + decimal(missing),
                    )
                } else {
                    r is Ok && r->Ok_0@ == all_items(self.slots@)
                }
            }),
    {
        let ghost slots = self.slots@;
        proof {
            lemma_first_missing(slots);
        }
        let mut results: Vec<Result<R>> = Vec::new();
        let shard_count: usize = self.slots.len();
        let mut shard: usize = 0;
        for slot in iter: self.slots
            invariant
                iter.seq() == slots,
                shard == iter.index(),
                iter.index() <= first_missing(slots),
                slots.len() == shard_count,
                results@ == all_items(slots.take(iter.index())),
        {
            proof {
                let done = slots.take(iter.index() + 1);
                assert(done.drop_last() =~= slots.take(iter.index()));
                assert(done.last() == slots[iter.index()]);
            }
            match slot {
                None => {
                    let message = with_decimal(
                        "RetryableMultiRegion missing shard result at index ",
                        shard as u64,
                    );
                    return Err(internal_err(message.as_str()));
                },
                Some(Ok(items)) => {
                    let mut items = items;
                    results.append(&mut items);
                },
                Some(Err(error)) => {
                    results.push(Err(error));
                    assert(results@ =~= all_items(slots.take(iter.index())) + seq![
                        Err::<R, Error>(error),
                    ]);
                },
            }
            shard = shard + 1;
        }
        assert(slots.take(slots.len() as int) =~= slots);
        Ok(results)
    }
}

/// The results of a shard stand behind those of all earlier shards and before those of all later
/// ones, whenever they came in.
pub proof fn law_results_follow_the_shards<R>(
    slots: Seq<Option<Result<Vec<Result<R>>>>>,
    shard: int,
)
    requires
        0 <= shard < slots.len(),
    ensures
        all_items(slots) == all_items(slots.take(shard)) + shard_items(slots[shard]->0) + all_items(
            slots.skip(shard + 1),
        ),
    decreases slots.len(),
{
    let before = slots.take(shard);
    let after = slots.skip(shard + 1);
    if shard == slots.len() - 1 {
        assert(slots.drop_last() =~= before);
        assert(after =~= Seq::<Option<Result<Vec<Result<R>>>>>::empty());
        assert(all_items(slots) =~= all_items(before) + shard_items(slots[shard]->0) + all_items(
            after,
        ));
    } else {
        let init = slots.drop_last();
        law_results_follow_the_shards(init, shard);
        assert(init.take(shard) =~= before);
        assert(init.skip(shard + 1) =~= after.drop_last());
        assert(after.last() == slots.last());
        assert(all_items(slots) =~= all_items(before) + shard_items(slots[shard]->0) + all_items(
            after,
        ));
    }
}

/// In which order two shards come in does not matter.
pub proof fn law_results_may_come_in_any_order<R>(
    slots: Seq<Option<Result<Vec<Result<R>>>>>,
    one: int,
    first: Result<Vec<Result<R>>>,
    other: int,
    second: Result<Vec<Result<R>>>,
)
    requires
        0 <= one < slots.len(),
        0 <= other < slots.len(),
        one != other,
    ensures
        slots.update(one, Some(first)).update(other, Some(second)) == slots.update(
            other,
            Some(second),
        ).update(one, Some(first)),
{
    assert(slots.update(one, Some(first)).update(other, Some(second)) =~= slots.update(
        other,
        Some(second),
    ).update(one, Some(first)));
}

/// The plan that sends a request to all stores.
#[derive(Debug)]
pub struct RetryableAllStores<P, PdC> {
    pub inner: P,
    pub pd_client: PdC,
    pub backoff: Backoff,
}

impl<P: Plan, PdC> Plan for RetryableAllStores<P, PdC> {
    type Result = Vec<Result<P::Result>>;
}

impl<P: Clone, PdC: Clone> Clone for RetryableAllStores<P, PdC> {
    fn clone(&self) -> (r: Self)
        ensures
            cloned(self.inner, r.inner),
            cloned(self.pd_client, r.pd_client),
            r.backoff == self.backoff,
    {
        RetryableAllStores {
            inner: self.inner.clone(),
            pd_client: self.pd_client.clone(),
            backoff: self.backoff,
        }
    }
}

/// What is to be done about a request to a store.
#[derive(Debug)]
pub enum StoreStep<R> {
    /// Wait, and send the request again.
    Sleep { delay_ms: u64 },
    /// End.
    Return(Result<R>),
}

/// What comes of the response of a store. Only an error of the transport makes the request be
/// sent again, as long as there are delays. A region error is not expected of a store.
pub fn store_responded<R: HasKeyErrors + HasRegionError>(
    backoff: &mut Backoff,
    response: Result<R>,
) -> (r: StoreStep<R>)
    ensures
        match response {
            Ok(response) => {
                &&& *final(backoff) == *old(backoff)
                &&& r is Return
                &&& match response.held_key_errors() {
                    Some(errors) => r->Return_0 is Err && r->Return_0->Err_0 is MultipleKeyErrors
                        && r->Return_0->Err_0->MultipleKeyErrors_0@ == errors,
                    None => r->Return_0 == match response.held_region_error() {
                        Some(e) => Err::<R, Error>(Error::RegionError(Box::new(e))),
                        None => Ok(response),
                    },
                }
            },
            Err(error) => if is_transport_error(error) {
                &&& *final(backoff) == old(backoff).after_next()
                &&& r == match old(backoff).next_delay() {
                    Some(delay_ms) => StoreStep::Sleep { delay_ms },
                    None => StoreStep::Return(Err::<R, Error>(error)),
                }
            } else {
                &&& *final(backoff) == *old(backoff)
                &&& r == StoreStep::Return(Err::<R, Error>(error))
            },
        },
{
    match response {
        Ok(response) => {
            let mut response = response;
            match take_failure(&mut response) {
                Failure::Keys(errors) => StoreStep::Return(Err(Error::MultipleKeyErrors(errors))),
                Failure::Region(e) => StoreStep::Return(Err(Error::RegionError(Box::new(e)))),
                Failure::Absent => StoreStep::Return(Ok(response)),
            }
        },
        Err(error) => {
            if !is_grpc_error(&error) {
                return StoreStep::Return(Err(error));
            }
            match backoff.next_delay_ms() {
                Some(delay_ms) => StoreStep::Sleep { delay_ms },
                None => StoreStep::Return(Err(error)),
            }
        },
    }
}

} // verus!
