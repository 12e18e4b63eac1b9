//! Async resources: a cached fetch keyed by a reactive input.
//!
//! A resource remembers the last key it dispatched a fetch for and the state
//! that fetch left behind. Completions carry the ticket issued at dispatch
//! time; a completion whose ticket is stale (a newer key has been dispatched
//! since) is discarded without touching the cache, and a completion arriving
//! after the owning scope was torn down is a no-op as well.

use vstd::prelude::*;

verus! {

/// Cached state of the latest fetch of a resource.
#[derive(Clone, Copy, Debug, PartialEq, Eq, Structural)]
pub enum ResourceState {
    Pending,
    Ready(u64),
    Errored(u64),
}

/// Whether consumers may observe intermediate states before the first
/// resolution. A `Blocking` resource suppresses every state until its first
/// fetch has completed, so an initial render never shows a fallback for it.
#[derive(Clone, Copy, Debug, PartialEq, Eq, Structural)]
pub enum FetchMode {
    Normal,
    Blocking,
}

/// Issued when a fetch is dispatched; the eventual completion hands it back
/// so the resource can tell a current fetch from a superseded one.
#[derive(Clone, Copy, Debug, PartialEq, Eq, Structural)]
pub struct FetchTicket {
    pub key: u64,
    pub generation: u64,
}

/// What a completion did to the cache: applied, silently discarded because a
/// newer key superseded it, or dropped because the owning scope is gone.
#[derive(Clone, Copy, Debug, PartialEq, Eq, Structural)]
pub enum Completion {
    Applied,
    StaleDiscarded,
    ScopeDisposed,
}

/// One keyed async resource: the cache entry shared by every consumer.
pub struct AsyncResource {
    pub mode: FetchMode,
    /// Scope that created the resource; teardown of that scope disposes it.
    pub owner: usize,
    /// Cleared on scope teardown; a dead resource never mutates again.
    pub alive: bool,
    /// The most recently dispatched key, if any fetch was ever dispatched.
    pub last_key: Option<u64>,
    /// Bumped on every dispatch; a completion must match it to apply.
    pub generation: u64,
    pub state: ResourceState,
    /// The key whose completed fetch produced the current non-pending state.
    pub state_key: Option<u64>,
    /// Whether any fetch of this resource has ever completed.
    pub resolved_once: bool,
}

impl AsyncResource {
    /// A resolved state always belongs to the fetch of the last dispatched
    /// key, and before the first dispatch the resource is pending.
    pub open spec fn wf(self) -> bool {
        &&& (!(self.state is Pending) ==> self.state_key is Some && self.state_key == self.last_key)
        &&& (self.last_key is None ==> self.state is Pending && !self.resolved_once
            && self.generation == 0)
    }

    /// Law: once a resource has left `Pending`, its cached state is the result
    /// of the fetch for the *last* dispatched key — never of an earlier one.
    pub proof fn lemma_last_key_wins(self)
        requires
            self.wf(),
            !(self.state is Pending),
        ensures
            self.state_key is Some,
            self.state_key == self.last_key,
    {
    }

    pub fn new(mode: FetchMode, owner: usize) -> (r: AsyncResource)
        ensures
            r.wf(),
            r == AsyncResource::new_spec(mode, owner),
    {
        AsyncResource {
            mode,
            owner,
            alive: true,
            last_key: None,
            generation: 0,
            state: ResourceState::Pending,
            state_key: None,
            resolved_once: false,
        }
    }

    /// Re-evaluation of the key function observed `key`. If it differs from
    /// the last dispatched key, a fetch must be dispatched: the state becomes
    /// `Pending` and the returned ticket identifies the new fetch. An
    /// unchanged key dispatches nothing and the cached state stands.
    pub fn observe_key(&mut self, key: u64) -> (t: Option<FetchTicket>)
        requires
            old(self).wf(),
            old(self).generation < u64::MAX,
        ensures
            final(self).wf(),
            !old(self).alive || old(self).last_key == Some(key) ==> {
                &&& t is None
                &&& *final(self) == *old(self)
            },
            old(self).alive && old(self).last_key != Some(key) ==> {
                &&& t == Some(FetchTicket { key, generation: (old(self).generation + 1) as u64 })
                &&& *final(self) == (AsyncResource {
                    last_key: Some(key),
                    generation: (old(self).generation + 1) as u64,
                    state: ResourceState::Pending,
                    state_key: None,
                    ..*old(self)
                })
            },
    {
        let unchanged = match self.last_key {
            Some(k0) => k0 == key,
            None => false,
        };
        if !self.alive || unchanged {
            None
        } else {
            self.last_key = Some(key);
            self.generation = self.generation + 1;
            self.state = ResourceState::Pending;
            self.state_key = None;
            Some(FetchTicket { key, generation: self.generation })
        }
    }

    /// The fetch identified by `ticket` finished with `outcome`. The cache is
    /// updated only if the resource is still alive and the ticket is the one
    /// most recently dispatched; a superseded completion is discarded
    /// silently and a completion after scope teardown mutates nothing.
    pub fn complete(&mut self, ticket: FetchTicket, outcome: Result<u64, u64>) -> (c: Completion)
        requires
            old(self).wf(),
        ensures
            final(self).wf(),
            !old(self).alive ==> c is ScopeDisposed && *final(self) == *old(self),
            old(self).alive && !(ticket.generation == old(self).generation
                && old(self).last_key == Some(ticket.key)) ==> {
                &&& c is StaleDiscarded
                &&& *final(self) == *old(self)
            },
            old(self).alive && ticket.generation == old(self).generation
                && old(self).last_key == Some(ticket.key) ==> {
                &&& c is Applied
                &&& *final(self) == (AsyncResource {
                    state: match outcome {
                        Ok(v) => ResourceState::Ready(v),
                        Err(e) => ResourceState::Errored(e),
                    },
                    state_key: Some(ticket.key),
                    resolved_once: true,
                    ..*old(self)
                })
            },
    {
        if !self.alive {
            Completion::ScopeDisposed
        } else if ticket.generation == self.generation && (match self.last_key {
            Some(k0) => k0 == ticket.key,
            None => false,
        }) {
            self.state = match outcome {
                Ok(v) => ResourceState::Ready(v),
                Err(e) => ResourceState::Errored(e),
            };
            self.state_key = Some(ticket.key);
            self.resolved_once = true;
            Completion::Applied
        } else {
            Completion::StaleDiscarded
        }
    }

    /// The state a consumer sees. A `Blocking` resource that has never
    /// resolved emits nothing at all: consumers suspend instead of seeing a
    /// pending state.
    pub fn observable(&self) -> (r: Option<ResourceState>)
        ensures
            self.mode is Blocking && !self.resolved_once ==> r is None,
            !(self.mode is Blocking && !self.resolved_once) ==> r == Some(self.state),
    {
        if self.mode == FetchMode::Blocking && !self.resolved_once {
            None
        } else {
            Some(self.state)
        }
    }

    /// Scope teardown: the resource never mutates again, so the eventual
    /// result of any still-pending fetch becomes a no-op.
    pub fn dispose(&mut self)
        requires
            old(self).wf(),
        ensures
            final(self).wf(),
            *final(self) == (AsyncResource { alive: false, ..*old(self) }),
    {
        self.alive = false;
    }
}

/// All resources of one request/session scope tree, addressed by index so
/// that every consumer of a resource shares the same cache entry.
pub struct ResourceManager {
    pub resources: Vec<AsyncResource>,
}

impl ResourceManager {
    pub open spec fn wf(self) -> bool {
        forall|i: int| 0 <= i < self.resources@.len() ==> (#[trigger] self.resources@[i]).wf()
    }

    pub open spec fn valid_id(self, id: usize) -> bool {
        id < self.resources@.len()
    }

    pub fn new() -> (r: ResourceManager)
        ensures
            r.wf(),
            r.resources@.len() == 0,
    {
        ResourceManager { resources: Vec::new() }
    }

    /// Creates a resource owned by `owner` and returns its id.
    pub fn create(&mut self, mode: FetchMode, owner: usize) -> (id: usize)
        requires
            old(self).wf(),
        ensures
            final(self).wf(),
            id == old(self).resources@.len(),
            final(self).resources@ == old(self).resources@.push(
                AsyncResource::new_spec(mode, owner),
            ),
    {
        let id = self.resources.len();
        self.resources.push(AsyncResource::new(mode, owner));
        id
    }

    pub fn observe_key(&mut self, id: usize, key: u64) -> (t: Option<FetchTicket>)
        requires
            old(self).wf(),
            old(self).valid_id(id),
            old(self).resources@[id as int].generation < u64::MAX,
        ensures
            final(self).wf(),
            final(self).resources@.len() == old(self).resources@.len(),
            forall|j: int| 0 <= j < old(self).resources@.len() && j != id
                ==> final(self).resources@[j] == old(self).resources@[j],
            ({
                let o = old(self).resources@[id as int];
                let f = final(self).resources@[id as int];
                &&& (!o.alive || o.last_key == Some(key) ==> t is None && f == o)
                &&& (o.alive && o.last_key != Some(key) ==> {
                    &&& t == Some(FetchTicket { key, generation: (o.generation + 1) as u64 })
                    &&& f == (AsyncResource {
                        last_key: Some(key),
                        generation: (o.generation + 1) as u64,
                        state: ResourceState::Pending,
                        state_key: None,
                        ..o
                    })
                })
            }),
    {
        let r = &mut self.resources[id];
        r.observe_key(key)
    }

    pub fn complete(&mut self, id: usize, ticket: FetchTicket, outcome: Result<u64, u64>) -> (c: Completion)
        requires
            old(self).wf(),
            old(self).valid_id(id),
        ensures
            final(self).wf(),
            final(self).resources@.len() == old(self).resources@.len(),
            forall|j: int| 0 <= j < old(self).resources@.len() && j != id
                ==> final(self).resources@[j] == old(self).resources@[j],
            ({
                let o = old(self).resources@[id as int];
                let f = final(self).resources@[id as int];
                &&& (!o.alive ==> c is ScopeDisposed && f == o)
                &&& (o.alive && !(ticket.generation == o.generation && o.last_key == Some(
                    ticket.key,
                )) ==> c is StaleDiscarded && f == o)
                &&& (o.alive && ticket.generation == o.generation && o.last_key == Some(
                    ticket.key,
                ) ==> {
                    &&& c is Applied
                    &&& f == (AsyncResource {
                        state: match outcome {
                            Ok(v) => ResourceState::Ready(v),
                            Err(e) => ResourceState::Errored(e),
                        },
                        state_key: Some(ticket.key),
                        resolved_once: true,
                        ..o
                    })
                })
            }),
    {
        let r = &mut self.resources[id];
        r.complete(ticket, outcome)
    }

    pub fn observable(&self, id: usize) -> (r: Option<ResourceState>)
        requires
            self.valid_id(id),
        ensures
            r == self.resources@[id as int].observable_spec(),
    {
        self.resources[id].observable()
    }

    /// Tears down `scope`: every resource it owns is disposed, so no fetch of
    /// theirs can mutate state afterwards; resources of other scopes are
    /// untouched.
    pub fn dispose_scope(&mut self, scope: usize)
        requires
            old(self).wf(),
        ensures
            final(self).wf(),
            final(self).resources@.len() == old(self).resources@.len(),
            forall|j: int| 0 <= j < old(self).resources@.len() ==> {
                &&& old(self).resources@[j].owner == scope
                    ==> #[trigger] final(self).resources@[j]
                        == (AsyncResource { alive: false, ..old(self).resources@[j] })
                &&& old(self).resources@[j].owner != scope
                    ==> final(self).resources@[j] == old(self).resources@[j]
            },
    {
        let n = self.resources.len();
        let mut i: usize = 0;
        while i < n
            invariant
                n == self.resources@.len(),
                n == old(self).resources@.len(),
                self.wf(),
                i <= n,
                forall|j: int| i <= j < n
                    ==> #[trigger] self.resources@[j] == old(self).resources@[j],
                forall|j: int| 0 <= j < i ==> {
                    &&& old(self).resources@[j].owner == scope
                        ==> #[trigger] self.resources@[j]
                            == (AsyncResource { alive: false, ..old(self).resources@[j] })
                    &&& old(self).resources@[j].owner != scope
                        ==> self.resources@[j] == old(self).resources@[j]
                },
            decreases n - i,
        {
            if self.resources[i].owner == scope {
                let r = &mut self.resources[i];
                r.dispose();
            }
            i = i + 1;
        }
    }
}

impl AsyncResource {
    /// The value `new` constructs, available to specifications.
    pub open spec fn new_spec(mode: FetchMode, owner: usize) -> AsyncResource {
        AsyncResource {
            mode,
            owner,
            alive: true,
            last_key: None,
            generation: 0,
            state: ResourceState::Pending,
            state_key: None,
            resolved_once: false,
        }
    }

    /// What `observable` returns, available to specifications.
    pub open spec fn observable_spec(self) -> Option<ResourceState> {
        if self.mode is Blocking && !self.resolved_once {
            None
        } else {
            Some(self.state)
        }
    }
}

} // verus!

