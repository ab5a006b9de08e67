//! Loading a region that is not cached, once for all who ask for it.
//!
//! Whoever misses a region in the cache either waits for a load that is under way or becomes the
//! loader: sets a marker, looks into the cache once more, fetches the region and clears the
//! marker, so that those who wait look into the cache again.

use std::collections::HashSet;
use vstd::prelude::*;

use crate::kv::key::Key;
use crate::kv::order::bytes_eq;
use crate::region::RegionId;

verus! {

broadcast use vstd::std_specs::hash::group_hash_axioms;

/// The keys whose regions are being loaded.
#[derive(Debug)]
pub struct LoadingKeys {
    keys: Vec<Key>,
}

impl View for LoadingKeys {
    type V = Set<Seq<u8>>;

    closed spec fn view(&self) -> Set<Seq<u8>> {
        Set::new(|key: Seq<u8>| exists|i: int| 0 <= i < self.keys@.len() && (#[trigger] self.keys@[i])@ == key)
    }
}

impl LoadingKeys {
    /// No key occurs twice.
    pub closed spec fn wf(self) -> bool {
        forall|i: int, j: int| 0 <= i < j < self.keys@.len() ==> self.keys@[i]@ != self.keys@[j]@
    }

    /// No loads.
    pub fn new() -> (r: Self)
        ensures
            r.wf(),
            r@ == Set::<Seq<u8>>::empty(),
    {
        let r = LoadingKeys { keys: Vec::new() };
        assert(r@ =~= Set::<Seq<u8>>::empty());
        r
    }

    fn position(&self, key: &Key) -> (r: Option<usize>)
        ensures
            match r {
                Some(i) => i < self.keys@.len() && self.keys@[i as int]@ == key@,
                None => !self@.contains(key@),
            },
    {
        let mut i: usize = 0;
        while i < self.keys.len()
            invariant
                i <= self.keys.len(),
                forall|k: int| 0 <= k < i ==> (#[trigger] self.keys@[k])@ != key@,
            decreases self.keys.len() - i,
        {
            if bytes_eq(&self.keys[i].0, &key.0) {
                return Some(i);
            }
            i = i + 1;
        }
        None
    }

    /// Become the loader of a key, unless it is being loaded. Whether that was so.
    pub fn register(&mut self, key: &Key) -> (r: bool)
        requires
            old(self).wf(),
        ensures
            final(self).wf(),
            r == !old(self)@.contains(key@),
            final(self)@ == old(self)@.insert(key@),
    {
        let ghost before = self.keys@;
        match self.position(key) {
            Some(i) => {
                assert(self@ =~= self@.insert(key@));
                false
            },
            None => {
                let key = key.clone();
                self.keys.push(key);
                proof {
                    let after = self.keys@;
                    assert forall|i: int, j: int| 0 <= i < j < after.len() implies after[i]@
                        != after[j]@ by {
                        if j == before.len() {
                            assert(before[i]@ != key@);
                        }
                    }
                    assert forall|k: Seq<u8>| self@.contains(k) <==> old(self)@.contains(k) || k
                        == key@ by {
                        if old(self)@.contains(k) {
                            let i = choose|i: int|
                                0 <= i < before.len() && (#[trigger] before[i])@ == k;
                            assert(after[i]@ == k);
                        }
                        if k == key@ {
                            assert(after[before.len() as int]@ == k);
                        }
                        if self@.contains(k) {
                            let i = choose|i: int|
                                0 <= i < after.len() && (#[trigger] after[i])@ == k;
                            if i < before.len() {
                                assert(before[i]@ == k);
                            }
                        }
                    }
                    assert(self@ =~= old(self)@.insert(key@));
                }
                true
            },
        }
    }

    /// Clear the marker of a key.
    pub fn clear(&mut self, key: &Key)
        requires
            old(self).wf(),
        ensures
            final(self).wf(),
            final(self)@ == old(self)@.remove(key@),
    {
        let ghost before = self.keys@;
        match self.position(key) {
            Some(at) => {
                let _ = self.keys.remove(at);
                proof {
                    let after = self.keys@;
                    assert forall|i: int| 0 <= i < after.len() implies #[trigger] after[i] == (if i
                        < at {
                        before[i]
                    } else {
                        before[i + 1]
                    }) by {}
                    assert forall|k: Seq<u8>| self@.contains(k) <==> old(self)@.contains(k) && k
                        != key@ by {
                        if self@.contains(k) {
                            let i = choose|i: int|
                                0 <= i < after.len() && (#[trigger] after[i])@ == k;
                            let j = if i < at {
                                i
                            } else {
                                i + 1
                            };
                            assert(before[j]@ == k);
                        }
                        if old(self)@.contains(k) && k != key@ {
                            let i = choose|i: int|
                                0 <= i < before.len() && (#[trigger] before[i])@ == k;
                            let j = if i < at {
                                i
                            } else {
                                i - 1
                            };
                            assert(after[j]@ == k);
                        }
                    }
                    assert(self@ =~= old(self)@.remove(key@));
                }
            },
            None => {
                assert(self@ =~= self@.remove(key@));
            },
        }
    }
}

/// The ids whose regions are being loaded.
#[derive(Debug)]
pub struct LoadingIds {
    ids: HashSet<RegionId>,
}

impl View for LoadingIds {
    type V = Set<RegionId>;

    closed spec fn view(&self) -> Set<RegionId> {
        self.ids@
    }
}

impl LoadingIds {
    /// No loads.
    pub fn new() -> (r: Self)
        ensures
            r@ == Set::<RegionId>::empty(),
    {
        LoadingIds { ids: HashSet::new() }
    }

    /// Become the loader of an id, unless it is being loaded. Whether that was so.
    pub fn register(&mut self, id: RegionId) -> (r: bool)
        ensures
            r == !old(self)@.contains(id),
            final(self)@ == old(self)@.insert(id),
    {
        self.ids.insert(id)
    }

    /// Clear the marker of an id.
    pub fn clear(&mut self, id: RegionId)
        ensures
            final(self)@ == old(self)@.remove(id),
    {
        self.ids.remove(&id);
    }
}

/// Where someone who asks for a region stands.
#[derive(Clone, Copy, Debug, PartialEq, Eq, Structural)]
pub enum RegionLoad {
    /// The cache is looked into.
    LookingUp,
    /// The region was missed; the marker is asked for.
    Registering,
    /// Someone else loads the region.
    Waiting,
    /// The marker is set; the cache is looked into once more.
    LookingAgain,
    /// The marker is set; the region is fetched.
    Fetching,
    /// The answer is there.
    Done,
}

/// What has happened.
#[derive(Clone, Copy, Debug, PartialEq, Eq, Structural)]
pub enum LoadEvent {
    /// The cache holds the region.
    Hit,
    /// The cache does not hold the region.
    Miss,
    /// The marker was not set, and is now.
    BecameLoader,
    /// The marker was set already.
    AlreadyLoading,
    /// The loader has woken those who wait.
    Woken,
    /// The fetch has ended, with the region or with an error.
    Fetched,
}

/// What is to be done next.
#[derive(Clone, Copy, Debug, PartialEq, Eq, Structural)]
pub enum LoadAction {
    /// Look into the cache.
    LookUp,
    /// Ask for the marker.
    Register,
    /// Wait to be woken.
    Wait,
    /// Fetch the region, and add it to the cache if it comes.
    Fetch,
    /// Answer with what the cache held.
    ReturnCached,
    /// Clear the marker, wake those who wait, and answer with what the cache held.
    FinishWithCached,
    /// Clear the marker, wake those who wait, and answer with what was fetched.
    FinishWithFetched,
}

impl LoadAction {
    /// The marker is cleared.
    pub open spec fn clears_marker(self) -> bool {
        self == LoadAction::FinishWithCached || self == LoadAction::FinishWithFetched
    }
}

impl RegionLoad {
    /// The event can happen here.
    pub open spec fn expects(self, event: LoadEvent) -> bool {
        match self {
            RegionLoad::LookingUp | RegionLoad::LookingAgain => event == LoadEvent::Hit || event
                == LoadEvent::Miss,
            RegionLoad::Registering => event == LoadEvent::BecameLoader || event
                == LoadEvent::AlreadyLoading,
            RegionLoad::Waiting => event == LoadEvent::Woken,
            RegionLoad::Fetching => event == LoadEvent::Fetched,
            RegionLoad::Done => false,
        }
    }

    /// The marker is set on behalf of the one who stands here.
    pub open spec fn holds_marker(self) -> bool {
        self == RegionLoad::LookingAgain || self == RegionLoad::Fetching
    }

    /// Where the event leads, and what is to be done there.
    pub open spec fn leads_to(self, event: LoadEvent) -> (RegionLoad, LoadAction) {
        match (self, event) {
            (RegionLoad::LookingUp, LoadEvent::Hit) => (RegionLoad::Done, LoadAction::ReturnCached),
            (RegionLoad::LookingUp, _) => (RegionLoad::Registering, LoadAction::Register),
            (RegionLoad::Registering, LoadEvent::BecameLoader) => (
                RegionLoad::LookingAgain,
                LoadAction::LookUp,
            ),
            (RegionLoad::Registering, _) => (RegionLoad::Waiting, LoadAction::Wait),
            (RegionLoad::Waiting, _) => (RegionLoad::LookingUp, LoadAction::LookUp),
            (RegionLoad::LookingAgain, LoadEvent::Hit) => (
                RegionLoad::Done,
                LoadAction::FinishWithCached,
            ),
            (RegionLoad::LookingAgain, _) => (RegionLoad::Fetching, LoadAction::Fetch),
            (_, _) => (RegionLoad::Done, LoadAction::FinishWithFetched),
        }
    }

    /// Ask for a region: the cache is looked into first.
    pub fn start() -> (r: (RegionLoad, LoadAction))
        ensures
            r == (RegionLoad::LookingUp, LoadAction::LookUp),
    {
        (RegionLoad::LookingUp, LoadAction::LookUp)
    }

    /// What follows from an event.
    pub fn next(self, event: LoadEvent) -> (r: (RegionLoad, LoadAction))
        requires
            self.expects(event),
        ensures
            r == self.leads_to(event),
    {
        match (self, event) {
            (RegionLoad::LookingUp, LoadEvent::Hit) => (RegionLoad::Done, LoadAction::ReturnCached),
            (RegionLoad::LookingUp, _) => (RegionLoad::Registering, LoadAction::Register),
            (RegionLoad::Registering, LoadEvent::BecameLoader) => (
                RegionLoad::LookingAgain,
                LoadAction::LookUp,
            ),
            (RegionLoad::Registering, _) => (RegionLoad::Waiting, LoadAction::Wait),
            (RegionLoad::Waiting, _) => (RegionLoad::LookingUp, LoadAction::LookUp),
            (RegionLoad::LookingAgain, LoadEvent::Hit) => (
                RegionLoad::Done,
                LoadAction::FinishWithCached,
            ),
            (RegionLoad::LookingAgain, _) => (RegionLoad::Fetching, LoadAction::Fetch),
            (_, _) => (RegionLoad::Done, LoadAction::FinishWithFetched),
        }
    }
}

/// Whoever sets the marker clears it, just once, before the answer is given, and nobody else
/// does; only the one who holds the marker fetches.
pub proof fn law_the_loader_clears_its_marker(state: RegionLoad, event: LoadEvent)
    requires
        state.expects(event),
    ensures
        ({
            let (next, action) = state.leads_to(event);
            &&& next.holds_marker() <==> event == LoadEvent::BecameLoader || (state.holds_marker()
                && !action.clears_marker())
            &&& action.clears_marker() ==> state.holds_marker() && next == RegionLoad::Done
            &&& next == RegionLoad::Done ==> !next.holds_marker()
            &&& action == LoadAction::Fetch ==> next.holds_marker()
        }),
{
}

/// One of those who ask for a region, and what they were answered, if they were: a region, or
/// nothing if the fetch has failed.
pub struct Asker<R> {
    pub state: RegionLoad,
    pub answer: Option<Option<R>>,
}

/// All who ask for the same region, by its id or by a key.
#[verifier::reject_recursive_types(W)]
pub struct Askers<W, R> {
    /// The markers that are set.
    pub loading: Set<W>,
    /// The region in the cache.
    pub cache: Option<R>,
    pub askers: Seq<Asker<R>>,
    /// The number of fetches that were begun.
    pub fetches: nat,
}

impl<W, R> Askers<W, R> {
    /// Nobody has been answered, nobody loads the region, and it is not cached.
    pub open spec fn is_start(self, wanted: W) -> bool {
        &&& !self.loading.contains(wanted)
        &&& self.cache is None
        &&& self.fetches == 0
        &&& forall|i: int|
            0 <= i < self.askers.len() ==> (#[trigger] self.askers[i]).state
                == RegionLoad::LookingUp && self.askers[i].answer is None
    }

    /// The event can happen, as things stand in the cache and with the markers.
    pub open spec fn allows(self, wanted: W, event: LoadEvent) -> bool {
        match event {
            LoadEvent::Hit => self.cache is Some,
            LoadEvent::Miss => self.cache is None,
            LoadEvent::BecameLoader => !self.loading.contains(wanted),
            LoadEvent::AlreadyLoading => self.loading.contains(wanted),
            LoadEvent::Fetched => true,
            LoadEvent::Woken => false,
        }
    }

    /// One of those who ask goes on with an event, while a fetch that ends gives the region or
    /// fails. When the marker is cleared, those who wait are woken.
    pub open spec fn steps_to(
        self,
        wanted: W,
        at: int,
        event: LoadEvent,
        fetched: Option<R>,
        after: Askers<W, R>,
    ) -> bool {
        let asker = self.askers[at];
        let (next, action) = asker.state.leads_to(event);
        &&& 0 <= at < self.askers.len()
        &&& asker.state.expects(event)
        &&& self.allows(wanted, event)
        &&& after.cache == (if event == LoadEvent::Fetched && fetched is Some {
            fetched
        } else {
            self.cache
        })
        &&& after.loading == (if event == LoadEvent::BecameLoader {
            self.loading.insert(wanted)
        } else if action.clears_marker() {
            self.loading.remove(wanted)
        } else {
            self.loading
        })
        &&& after.fetches == self.fetches + (if action == LoadAction::Fetch {
            1nat
        } else {
            0nat
        })
        &&& after.askers.len() == self.askers.len()
        &&& after.askers[at] == (Asker {
            state: next,
            answer: match action {
                LoadAction::ReturnCached => Some(self.cache),
                LoadAction::FinishWithCached => Some(self.cache),
                LoadAction::FinishWithFetched => Some(fetched),
                _ => asker.answer,
            },
        })
        &&& forall|i: int| #![trigger after.askers[i]]
            0 <= i < self.askers.len() && i != at ==> after.askers[i] == (if action.clears_marker()
                && self.askers[i].state == RegionLoad::Waiting {
                Asker {
                    state: self.askers[i].state.leads_to(LoadEvent::Woken).0,
                    answer: self.askers[i].answer,
                }
            } else {
                self.askers[i]
            })
    }

    /// At most one of those who ask holds the marker, and someone does just when it is set. Nobody
    /// waits unless it is set.
    pub open spec fn has_one_loader(self, wanted: W) -> bool {
        &&& forall|i: int, j: int|
            0 <= i < self.askers.len() && 0 <= j < self.askers.len() && (
            #[trigger] self.askers[i]).state.holds_marker() && (
            #[trigger] self.askers[j]).state.holds_marker() ==> i == j
        &&& self.loading.contains(wanted) <==> exists|i: int|
            0 <= i < self.askers.len() && (#[trigger] self.askers[i]).state.holds_marker()
        &&& forall|i: int|
            0 <= i < self.askers.len() && (#[trigger] self.askers[i]).state == RegionLoad::Waiting
                ==> self.loading.contains(wanted)
    }

    /// The region was fetched once, or it is being fetched, or it has not been fetched yet. All
    /// who were answered were answered with it.
    pub open spec fn fetches_once(self, region: R) -> bool {
        &&& match self.cache {
            Some(cached) => cached == region && self.fetches == 1 && forall|i: int|
                0 <= i < self.askers.len() ==> (#[trigger] self.askers[i]).state
                    != RegionLoad::Fetching,
            None => {
                &&& self.fetches <= 1
                &&& self.fetches == 1 <==> exists|i: int|
                    0 <= i < self.askers.len() && (#[trigger] self.askers[i]).state
                        == RegionLoad::Fetching
                &&& forall|i: int|
                    0 <= i < self.askers.len() ==> (#[trigger] self.askers[i]).state
                        != RegionLoad::Done
            },
        }
        &&& forall|i: int|
            0 <= i < self.askers.len() && (#[trigger] self.askers[i]).state == RegionLoad::Done
                ==> self.askers[i].answer == Some(Some(region))
    }
}

/// Among all who ask for the same region there is at most one loader, whatever happens, so at most
/// one fetch is under way. Whoever waits, waits for a loader.
pub proof fn law_there_is_one_loader<W, R>(
    before: Askers<W, R>,
    wanted: W,
    at: int,
    event: LoadEvent,
    fetched: Option<R>,
    after: Askers<W, R>,
)
    requires
        before.has_one_loader(wanted),
        before.steps_to(wanted, at, event, fetched, after),
    ensures
        after.has_one_loader(wanted),
{
    law_the_loader_clears_its_marker(before.askers[at].state, event);
    let action = before.askers[at].state.leads_to(event).1;
    assert forall|i: int| 0 <= i < before.askers.len() && i != at implies (
    #[trigger] after.askers[i]).state.holds_marker() == before.askers[i].state.holds_marker() by {}
    assert forall|i: int| 0 <= i < after.askers.len() && i != at && (
    #[trigger] after.askers[i]).state == RegionLoad::Waiting implies before.askers[i].state
        == RegionLoad::Waiting && !action.clears_marker() by {}
    if before.loading.contains(wanted) {
        let loader = choose|i: int|
            0 <= i < before.askers.len() && (#[trigger] before.askers[i]).state.holds_marker();
        assert(after.askers[loader].state.holds_marker() || loader == at);
    }
    assert(after.askers[at].state == before.askers[at].state.leads_to(event).0);
    if after.loading.contains(wanted) {
        assert(exists|i: int|
            0 <= i < after.askers.len() && (#[trigger] after.askers[i]).state.holds_marker());
    } else {
        assert forall|i: int| 0 <= i < after.askers.len() implies !(
        #[trigger] after.askers[i]).state.holds_marker() by {
            if i != at && before.askers[i].state.holds_marker() {
                assert(before.askers[at].state.holds_marker());
            }
        }
    }
}

/// Where fetches give the region, it is fetched once for all who ask for it, as long as it stays
/// in the cache, and all of them are answered with it.
pub proof fn law_a_region_is_fetched_once<W, R>(
    before: Askers<W, R>,
    wanted: W,
    at: int,
    event: LoadEvent,
    region: R,
    after: Askers<W, R>,
)
    requires
        before.has_one_loader(wanted),
        before.fetches_once(region),
        before.steps_to(wanted, at, event, Some(region), after),
    ensures
        after.has_one_loader(wanted),
        after.fetches_once(region),
{
    law_there_is_one_loader(before, wanted, at, event, Some(region), after);
    assert(after.askers[at].state == before.askers[at].state.leads_to(event).0);
    assert forall|i: int| 0 <= i < before.askers.len() && i != at implies ((
    #[trigger] after.askers[i]).state == RegionLoad::Fetching <==> before.askers[i].state
        == RegionLoad::Fetching) && (after.askers[i].state == RegionLoad::Done
        <==> before.askers[i].state == RegionLoad::Done) && after.askers[i].answer
        == before.askers[i].answer by {}
    if before.askers[at].state == RegionLoad::Fetching {
        assert(before.askers[at].state.holds_marker());
        assert forall|i: int| 0 <= i < after.askers.len() implies (#[trigger] after.askers[i]).state
            != RegionLoad::Fetching by {
            if i != at {
                assert(!before.askers[i].state.holds_marker());
            }
        }
    } else if before.askers[at].state == RegionLoad::LookingAgain {
        assert(before.askers[at].state.holds_marker());
        assert forall|i: int| 0 <= i < before.askers.len() implies (
        #[trigger] before.askers[i]).state != RegionLoad::Fetching by {
            if before.askers[i].state == RegionLoad::Fetching {
                assert(before.askers[i].state.holds_marker());
            }
        }
    } else if after.cache is None {
        if before.fetches == 1 {
            let i = choose|i: int|
                0 <= i < before.askers.len() && (#[trigger] before.askers[i]).state
                    == RegionLoad::Fetching;
            assert(after.askers[i].state == RegionLoad::Fetching);
        }
    }
}

/// What happens to all who ask for the same region, from the start on, where fetches give the
/// region: it is fetched at most once, just once if anyone has been answered, and all who have
/// been answered were answered with it. Unless all have been, someone can go on.
pub proof fn law_all_get_the_region_that_was_fetched_once<W, R>(
    run: Seq<Askers<W, R>>,
    moves: Seq<(int, LoadEvent)>,
    wanted: W,
    region: R,
)
    requires
        run.len() == moves.len() + 1,
        run[0].is_start(wanted),
        forall|i: int| #![trigger moves[i]]
            0 <= i < moves.len() ==> run[i].steps_to(
                wanted,
                moves[i].0,
                moves[i].1,
                Some(region),
                run[i + 1],
            ),
    ensures
        run.last().has_one_loader(wanted),
        run.last().fetches <= 1,
        forall|i: int|
            0 <= i < run.last().askers.len() && (#[trigger] run.last().askers[i]).state
                == RegionLoad::Done ==> run.last().fetches == 1 && run.last().askers[i].answer
                == Some(Some(region)),
        (exists|i: int|
            0 <= i < run.last().askers.len() && (#[trigger] run.last().askers[i]).state
                != RegionLoad::Done) ==> exists|i: int, event: LoadEvent|
            0 <= i < run.last().askers.len() && (
            #[trigger] run.last().askers[i]).state.expects(event) && #[trigger] run.last().allows(
                wanted,
                event,
            ),
{
    lemma_run_fetches_once(run, moves, wanted, region);
    let last = run.last();
    if exists|i: int|
        0 <= i < last.askers.len() && (#[trigger] last.askers[i]).state != RegionLoad::Done {
        let i = choose|i: int|
            0 <= i < last.askers.len() && (#[trigger] last.askers[i]).state != RegionLoad::Done;
        let at = if last.askers[i].state == RegionLoad::Waiting {
            choose|k: int|
                0 <= k < last.askers.len() && (#[trigger] last.askers[k]).state.holds_marker()
        } else {
            i
        };
        let event = match last.askers[at].state {
            RegionLoad::Registering => if last.loading.contains(wanted) {
                LoadEvent::AlreadyLoading
            } else {
                LoadEvent::BecameLoader
            },
            RegionLoad::Fetching => LoadEvent::Fetched,
            _ => if last.cache is Some {
                LoadEvent::Hit
            } else {
                LoadEvent::Miss
            },
        };
        assert(last.askers[at].state.expects(event) && last.allows(wanted, event));
    }
}

proof fn lemma_run_fetches_once<W, R>(
    run: Seq<Askers<W, R>>,
    moves: Seq<(int, LoadEvent)>,
    wanted: W,
    region: R,
)
    requires
        run.len() == moves.len() + 1,
        run[0].is_start(wanted),
        forall|i: int| #![trigger moves[i]]
            0 <= i < moves.len() ==> run[i].steps_to(
                wanted,
                moves[i].0,
                moves[i].1,
                Some(region),
                run[i + 1],
            ),
    ensures
        run.last().has_one_loader(wanted),
        run.last().fetches_once(region),
    decreases moves.len(),
{
    if moves.len() > 0 {
        let n = moves.len() - 1;
        let past = run.drop_last();
        let made = moves.drop_last();
        assert forall|i: int| #![trigger made[i]] 0 <= i < made.len() implies past[i].steps_to(
            wanted,
            made[i].0,
            made[i].1,
            Some(region),
            past[i + 1],
        ) by {
            assert(made[i] == moves[i]);
        }
        lemma_run_fetches_once(past, made, wanted, region);
        assert(past.last() == run[n]);
        assert(moves[n] == moves.last());
        law_a_region_is_fetched_once(run[n], wanted, moves[n].0, moves[n].1, region, run[n + 1]);
    }
}

} // verus!
