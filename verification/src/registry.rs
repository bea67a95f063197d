//! Spawn Request Registry and Scene Materializer.
//!
//! A spawn request is registered once per asset to import and polled every
//! scheduler tick. While the poll reports a pending load the request
//! survives; the tick it first reports loaded or failed, the request is
//! consumed. On a loaded asset the Scene Materializer and the Metadata
//! Extractor both run against the same snapshot; on a failed load the
//! request is dropped with a diagnostic outcome, so a failed load never
//! looks like a load that merely produced nothing. The host performs the
//! polling and the world mutation; this module decides.

use vstd::prelude::*;

use crate::apply::{applied, apply};
use crate::asset::{ExtensionRecord, LoadState, LoadedAsset, SpawnRequest};
use crate::extract::{extract, extracted};
use crate::store::MaterialStore;

verus! {

/// The result of polling the asset loader for one spawn request: the load
/// state of the backing handle and, when available, the loaded snapshot.
pub struct LoaderPoll {
    pub state: LoadState,
    pub asset: Option<LoadedAsset>,
}

/// A fixed world placement, in whole world units.
#[derive(Clone, Copy, PartialEq, Eq, Structural, Debug)]
pub struct Placement {
    pub x: i64,
    pub y: i64,
    pub z: i64,
}

/// The placement at which every materialized scene is spawned.
pub open spec fn spawn_placement() -> Placement {
    Placement { x: 149_980, y: 10, z: 0 }
}

/// An instruction to the host world: spawn `scene` at `placement`.
#[derive(Clone, Copy, PartialEq, Eq, Structural, Debug)]
pub struct SceneSpawn {
    pub scene: u64,
    pub placement: Placement,
}

/// Scene Materializer: the root scene of the loaded asset, to be spawned at
/// the fixed placement. An empty scene list is malformed content: nothing is
/// spawned and the caller must surface a diagnostic rather than continue
/// silently.
pub fn materialize(asset: &LoadedAsset) -> (spawn: Option<SceneSpawn>)
    ensures
        match spawn {
            Some(s) => asset.scenes@.len() > 0 && s.scene == asset.scenes@[0] && s.placement
                == spawn_placement(),
            None => asset.scenes@.len() == 0,
        },
{
    if asset.scenes.len() > 0 {
        Some(SceneSpawn { scene: asset.scenes[0], placement: Placement { x: 149_980, y: 10, z: 0 } })
    } else {
        None
    }
}

/// What one tick did to one spawn request. Every variant but `StillPending`
/// means the request was consumed on this tick.
pub enum RequestOutcome {
    /// The backing handle still reports a pending load; the request survives
    /// unchanged.
    StillPending(SpawnRequest),
    /// The asset loaded: the host must spawn `spawn` and take over
    /// `records`, to be applied once materials are live.
    Spawned { spawn: SceneSpawn, records: Vec<ExtensionRecord> },
    /// The asset loaded with an empty scene list: malformed content, a
    /// diagnostic for the host; nothing to spawn, yet extraction still ran.
    SceneMissing { records: Vec<ExtensionRecord> },
    /// The loader reported the asset loaded yet handed out no snapshot: a
    /// diagnostic for the host; nothing was spawned or extracted.
    AssetUnavailable,
    /// The load failed: a diagnostic for the host, kept apart from the
    /// loaded outcomes so a missing asset is never mistaken for one that
    /// loaded and produced nothing.
    LoadFailed,
}

/// What `RequestOutcome` a poll must produce for a request. Exactly one
/// variant fits any given poll, and its payload is pinned.
pub open spec fn outcome_matches(
    req: SpawnRequest,
    poll: LoaderPoll,
    outcome: RequestOutcome,
) -> bool {
    match outcome {
        RequestOutcome::StillPending(r) => poll.state is Pending && r == req,
        RequestOutcome::Spawned { spawn, records } => poll.state is Loaded && poll.asset is Some
            && poll.asset.unwrap().scenes@.len() > 0 && spawn.scene
            == poll.asset.unwrap().scenes@[0] && spawn.placement == spawn_placement() && records@
            == extracted(poll.asset.unwrap()),
        RequestOutcome::SceneMissing { records } => poll.state is Loaded && poll.asset is Some
            && poll.asset.unwrap().scenes@.len() == 0 && records@ == extracted(poll.asset.unwrap()),
        RequestOutcome::AssetUnavailable => poll.state is Loaded && poll.asset is None,
        RequestOutcome::LoadFailed => poll.state is Failed,
    }
}

/// Advance one spawn request by one tick, given what the loader reported for
/// its handle. The request is consumed the first tick the poll reports
/// anything but a pending load, and survives, unchanged, otherwise.
pub fn advance_request(req: SpawnRequest, poll: &LoaderPoll) -> (outcome: RequestOutcome)
    ensures
        outcome_matches(req, *poll, outcome),
        outcome is StillPending <==> poll.state is Pending,
{
    match poll.state {
        LoadState::Pending => RequestOutcome::StillPending(req),
        LoadState::Failed => RequestOutcome::LoadFailed,
        LoadState::Loaded => match &poll.asset {
            None => RequestOutcome::AssetUnavailable,
            Some(asset) => {
                let records = extract(asset);
                match materialize(asset) {
                    Some(spawn) => RequestOutcome::Spawned { spawn, records },
                    None => RequestOutcome::SceneMissing { records },
                }
            },
        },
    }
}

/// The spawn requests that survive a tick: exactly those whose poll still
/// reported a pending load, in registration order.
pub open spec fn surviving(
    reqs: Seq<SpawnRequest>,
    polls: Seq<LoaderPoll>,
) -> Seq<SpawnRequest>
    decreases reqs.len(),
{
    if reqs.len() == 0 {
        Seq::empty()
    } else {
        let prev = surviving(reqs.drop_last(), polls.drop_last());
        if polls[reqs.len() - 1].state is Pending {
            prev.push(reqs.last())
        } else {
            prev
        }
    }
}

/// Law: a tick keeps only requests whose poll reported a pending load; a
/// request whose poll settled, whether loaded or failed, is destroyed on
/// that same tick and cannot be observed afterwards.
pub proof fn lemma_surviving_only_pending(reqs: Seq<SpawnRequest>, polls: Seq<LoaderPoll>)
    requires
        reqs.len() == polls.len(),
    ensures
        forall|k: int|
            0 <= k < surviving(reqs, polls).len() ==> exists|i: int|
                0 <= i < reqs.len() && #[trigger] surviving(reqs, polls)[k] == reqs[i]
                    && polls[i].state is Pending,
        (forall|i: int| 0 <= i < polls.len() ==> !(#[trigger] polls[i].state is Pending))
            ==> surviving(reqs, polls).len() == 0,
    decreases reqs.len(),
{
    if reqs.len() > 0 {
        lemma_surviving_only_pending(reqs.drop_last(), polls.drop_last());
        let prev = surviving(reqs.drop_last(), polls.drop_last());
        assert forall|k: int| 0 <= k < surviving(reqs, polls).len() implies exists|i: int|
            0 <= i < reqs.len() && #[trigger] surviving(reqs, polls)[k] == reqs[i]
                && polls[i].state is Pending by {
            if k < prev.len() {
                let i = choose|i: int|
                    0 <= i < reqs.drop_last().len() && #[trigger] prev[k] == reqs.drop_last()[i]
                        && polls.drop_last()[i].state is Pending;
                assert(surviving(reqs, polls)[k] == reqs[i] && polls[i].state is Pending);
            } else {
                assert(surviving(reqs, polls)[k] == reqs[reqs.len() - 1]);
            }
        }
    }
}

/// What one tick reports back to the host for one request, once the records
/// have been taken over by the applier: the spawn to perform, or a
/// diagnostic.
#[derive(Clone, Copy, PartialEq, Eq, Structural, Debug)]
pub enum TickEvent {
    /// The backing handle still reports a pending load.
    StillPending { handle: u64 },
    /// The asset loaded: the host must spawn `spawn` into its world.
    Spawned { spawn: SceneSpawn },
    /// The asset loaded with an empty scene list: malformed content, nothing
    /// to spawn.
    SceneMissing,
    /// The loader reported the asset loaded yet handed out no snapshot.
    AssetUnavailable,
    /// The load failed.
    LoadFailed,
}

/// The event one poll produces for one request.
pub open spec fn event_of(req: SpawnRequest, poll: LoaderPoll) -> TickEvent {
    match poll.state {
        LoadState::Pending => TickEvent::StillPending { handle: req.handle },
        LoadState::Failed => TickEvent::LoadFailed,
        LoadState::Loaded => match poll.asset {
            None => TickEvent::AssetUnavailable,
            Some(asset) => if asset.scenes@.len() == 0 {
                TickEvent::SceneMissing
            } else {
                TickEvent::Spawned {
                    spawn: SceneSpawn { scene: asset.scenes@[0], placement: spawn_placement() },
                }
            },
        },
    }
}

/// The extension records one poll contributes to the tick's applier pass.
pub open spec fn poll_records(poll: LoaderPoll) -> Seq<ExtensionRecord> {
    if poll.state is Loaded && poll.asset is Some {
        extracted(poll.asset.unwrap())
    } else {
        Seq::empty()
    }
}

/// The extension records a whole tick's polls contribute, in request order.
pub open spec fn all_poll_records(polls: Seq<LoaderPoll>) -> Seq<ExtensionRecord>
    decreases polls.len(),
{
    if polls.len() == 0 {
        Seq::empty()
    } else {
        all_poll_records(polls.drop_last()) + poll_records(polls.last())
    }
}

/// Spawn Request Registry: the pending spawn-asset markers, in registration
/// order.
pub struct SpawnRequestRegistry {
    requests: Vec<SpawnRequest>,
}

impl View for SpawnRequestRegistry {
    type V = Seq<SpawnRequest>;

    closed spec fn view(&self) -> Seq<SpawnRequest> {
        self.requests@
    }
}

impl SpawnRequestRegistry {
    /// An empty registry.
    pub fn new() -> (s: Self)
        ensures
            s@ == Seq::<SpawnRequest>::empty(),
    {
        SpawnRequestRegistry { requests: Vec::new() }
    }

    /// Register one asset to import. Nothing is validated here: an invalid
    /// path surfaces later, as a failed load reported by the poll.
    pub fn register(&mut self, handle: u64) -> (id: usize)
        ensures
            final(self)@ == old(self)@.push((SpawnRequest { handle })),
            id == old(self)@.len(),
    {
        let id = self.requests.len();
        self.requests.push(SpawnRequest { handle });
        id
    }

    /// How many requests are still pending.
    pub fn len(&self) -> (n: usize)
        ensures
            n == self@.len(),
    {
        self.requests.len()
    }

    /// The handles of the registered requests, in order: the host polls the
    /// loader once per handle and hands the polls back, aligned by position.
    pub fn handles(&self) -> (handles: Vec<u64>)
        ensures
            handles@.len() == self@.len(),
            forall|i: int| 0 <= i < handles@.len() ==> #[trigger] handles@[i] == self@[i].handle,
    {
        let mut handles: Vec<u64> = Vec::new();
        let n = self.requests.len();
        for i in 0..n
            invariant
                n == self.requests@.len(),
                handles@.len() == i,
                forall|k: int|
                    0 <= k < i ==> #[trigger] handles@[k] == self.requests@[k].handle,
        {
            handles.push(self.requests[i].handle);
        }
        handles
    }

    /// One scheduler tick: advance every request by the loader poll the host
    /// hands in for it, aligned by position. Requests whose poll settled are
    /// destroyed on this very tick; the rest survive in order.
    pub fn tick(&mut self, polls: &Vec<LoaderPoll>) -> (outcomes: Vec<RequestOutcome>)
        requires
            polls@.len() == old(self)@.len(),
        ensures
            outcomes@.len() == old(self)@.len(),
            forall|i: int|
                0 <= i < outcomes@.len() ==> outcome_matches(
                    old(self)@[i],
                    polls@[i],
                    #[trigger] outcomes@[i],
                ),
            final(self)@ == surviving(old(self)@, polls@),
    {
        let mut outcomes: Vec<RequestOutcome> = Vec::new();
        let mut kept: Vec<SpawnRequest> = Vec::new();
        let n = self.requests.len();
        for i in 0..n
            invariant
                n == self.requests@.len(),
                polls@.len() == self.requests@.len(),
                self@ == old(self)@,
                outcomes@.len() == i,
                forall|k: int|
                    0 <= k < i ==> outcome_matches(
                        self.requests@[k],
                        polls@[k],
                        #[trigger] outcomes@[k],
                    ),
                kept@ == surviving(self.requests@.take(i as int), polls@.take(i as int)),
        {
            let req = self.requests[i];
            let outcome = advance_request(req, &polls[i]);
            if polls[i].state == LoadState::Pending {
                kept.push(req);
            }
            outcomes.push(outcome);
            proof {
                assert(self.requests@.take(i + 1 as int).drop_last() =~= self.requests@.take(
                    i as int,
                ));
                assert(polls@.take(i + 1 as int).drop_last() =~= polls@.take(i as int));
                assert(self.requests@.take(i + 1 as int).last() == self.requests@[i as int]);
            }
        }
        proof {
            assert(self.requests@.take(n as int) =~= self.requests@);
            assert(polls@.take(n as int) =~= polls@);
        }
        self.requests = kept;
        outcomes
    }

    /// One whole scheduler tick, with the applier pass included: advance
    /// every request by its poll, then overwrite the live materials with
    /// every record extracted this tick, in request order, so the applier
    /// sees the records the extractor produced on this very tick. Returns
    /// one event per request, for the host's world mutation and
    /// diagnostics.
    pub fn run_tick(&mut self, polls: &Vec<LoaderPoll>, store: &mut MaterialStore) -> (events: Vec<
        TickEvent,
    >)
        requires
            polls@.len() == old(self)@.len(),
        ensures
            events@.len() == old(self)@.len(),
            forall|i: int|
                0 <= i < events@.len() ==> #[trigger] events@[i] == event_of(
                    old(self)@[i],
                    polls@[i],
                ),
            final(self)@ == surviving(old(self)@, polls@),
            final(store)@ == applied(old(store)@, all_poll_records(polls@)),
    {
        let mut events: Vec<TickEvent> = Vec::new();
        let mut batch: Vec<ExtensionRecord> = Vec::new();
        let mut kept: Vec<SpawnRequest> = Vec::new();
        let n = self.requests.len();
        for i in 0..n
            invariant
                n == self.requests@.len(),
                polls@.len() == self.requests@.len(),
                self@ == old(self)@,
                store@ == old(store)@,
                events@.len() == i,
                forall|k: int|
                    0 <= k < i ==> #[trigger] events@[k] == event_of(
                        self.requests@[k],
                        polls@[k],
                    ),
                kept@ == surviving(self.requests@.take(i as int), polls@.take(i as int)),
                batch@ == all_poll_records(polls@.take(i as int)),
        {
            let outcome = advance_request(self.requests[i], &polls[i]);
            match outcome {
                RequestOutcome::StillPending(request) => {
                    kept.push(request);
                    events.push(TickEvent::StillPending { handle: request.handle });
                },
                RequestOutcome::Spawned { spawn, mut records } => {
                    batch.append(&mut records);
                    events.push(TickEvent::Spawned { spawn });
                },
                RequestOutcome::SceneMissing { mut records } => {
                    batch.append(&mut records);
                    events.push(TickEvent::SceneMissing);
                },
                RequestOutcome::AssetUnavailable => {
                    events.push(TickEvent::AssetUnavailable);
                },
                RequestOutcome::LoadFailed => {
                    events.push(TickEvent::LoadFailed);
                },
            }
            proof {
                assert(self.requests@.take(i + 1 as int).drop_last() =~= self.requests@.take(
                    i as int,
                ));
                assert(polls@.take(i + 1 as int).drop_last() =~= polls@.take(i as int));
                assert(self.requests@.take(i + 1 as int).last() == self.requests@[i as int]);
                assert(batch@ =~= all_poll_records(polls@.take(i + 1 as int)));
            }
        }
        proof {
            assert(self.requests@.take(n as int) =~= self.requests@);
            assert(polls@.take(n as int) =~= polls@);
        }
        self.requests = kept;
        apply(batch, store);
        events
    }
}

} // verus!
