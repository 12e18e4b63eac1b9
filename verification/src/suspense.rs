//! Suspense boundaries: a render pass collects the resources it reads, and a
//! boundary renders a fallback until every collected resource has settled.
//!
//! Boundaries nest: while an inner boundary is open it claims every resource
//! read, so an outer boundary never waits on resources read strictly inside a
//! nested one. A streamed boundary emits the fallback phase first and patches
//! the content in later; the request-level blocking render mode used for the
//! first paint emits no output at all until the boundary resolves, so a
//! fallback phase is never part of the initial output.

use vstd::prelude::*;
use crate::resource::ResourceManager;
use crate::resource::AsyncResource;

verus! {

/// What a boundary shows: the author's fallback, or the real content.
#[derive(Clone, Copy, Debug, PartialEq, Eq, Structural)]
pub enum Phase {
    Fallback,
    Content,
}

/// A resource counts as settled for a boundary once a consumer can observe a
/// resolved state: blocking resources that never resolved are not settled,
/// and neither is any resource still pending.
pub open spec fn settled(r: AsyncResource) -> bool {
    &&& !(r.mode is Blocking && !r.resolved_once)
    &&& !(r.state is Pending)
}

/// The registry of resources one boundary collected during a render pass.
pub struct SuspenseScope {
    pub registered: Vec<usize>,
}

impl SuspenseScope {
    pub open spec fn valid(self, mgr: ResourceManager) -> bool {
        forall|i: int| 0 <= i < self.registered@.len()
            ==> (#[trigger] self.registered@[i]) < mgr.resources@.len()
    }

    /// A boundary resolves only when every resource it registered settled.
    pub open spec fn spec_resolved(self, mgr: ResourceManager) -> bool {
        forall|i: int| 0 <= i < self.registered@.len()
            ==> settled(mgr.resources@[#[trigger] self.registered@[i] as int])
    }

    /// The phase a boundary shows: content exactly when every registered
    /// resource has settled, the fallback otherwise.
    pub fn resolve(&self, mgr: &ResourceManager) -> (p: Phase)
        requires
            self.valid(*mgr),
        ensures
            p is Content <==> self.spec_resolved(*mgr),
    {
        let n = self.registered.len();
        let mut i: usize = 0;
        while i < n
            invariant
                n == self.registered@.len(),
                self.valid(*mgr),
                i <= n,
                forall|j: int| 0 <= j < i
                    ==> settled(mgr.resources@[#[trigger] self.registered@[j] as int]),
            decreases n - i,
        {
            let id = self.registered[i];
            let settled_now = match mgr.observable(id) {
                None => false,
                Some(crate::resource::ResourceState::Pending) => false,
                Some(_) => true,
            };
            if !settled_now {
                assert(!settled(mgr.resources@[self.registered@[i as int] as int]));
                return Phase::Fallback;
            }
            i = i + 1;
        }
        Phase::Content
    }

    /// Streamed output: the observable two-phase sequence. The fallback is
    /// emitted immediately; the content phase follows once the boundary has
    /// resolved.
    pub fn streamed_output(&self, mgr: &ResourceManager) -> (out: Vec<Phase>)
        requires
            self.valid(*mgr),
        ensures
            out@.len() >= 1,
            out@[0] is Fallback,
            self.spec_resolved(*mgr) ==> out@ =~= seq![Phase::Fallback, Phase::Content],
            !self.spec_resolved(*mgr) ==> out@ =~= seq![Phase::Fallback],
    {
        let mut out: Vec<Phase> = Vec::new();
        out.push(Phase::Fallback);
        let p = self.resolve(mgr);
        if let Phase::Content = p {
            out.push(Phase::Content);
        }
        out
    }

    /// Blocking render mode for the first paint: nothing is emitted until
    /// the boundary resolves, and the fallback phase never appears.
    pub fn blocking_output(&self, mgr: &ResourceManager) -> (out: Vec<Phase>)
        requires
            self.valid(*mgr),
        ensures
            self.spec_resolved(*mgr) ==> out@ =~= seq![Phase::Content],
            !self.spec_resolved(*mgr) ==> out@ =~= Seq::<Phase>::empty(),
            forall|j: int| 0 <= j < out@.len() ==> !((#[trigger] out@[j]) is Fallback),
    {
        let mut out: Vec<Phase> = Vec::new();
        let p = self.resolve(mgr);
        if let Phase::Content = p {
            out.push(Phase::Content);
        }
        out
    }
}

/// Law: a boundary that registered a blocking resource which has not yet
/// completed its first fetch is not resolved — it never shows content, and
/// in blocking render mode it emits nothing, so no fallback phase ever
/// reaches the initial output either.
pub proof fn lemma_blocking_gates_boundary(
    scope: SuspenseScope,
    mgr: ResourceManager,
    i: int,
)
    requires
        scope.valid(mgr),
        0 <= i < scope.registered@.len(),
        mgr.resources@[scope.registered@[i] as int].mode is Blocking,
        !mgr.resources@[scope.registered@[i] as int].resolved_once,
    ensures
        !scope.spec_resolved(mgr),
{
    assert(!settled(mgr.resources@[scope.registered@[i] as int]));
}

/// The open-boundary stack of a render pass: a resource read registers with
/// the innermost open boundary only, so nesting partitions the resources.
pub struct BoundaryStack {
    pub open_scopes: Vec<SuspenseScope>,
}

impl BoundaryStack {
    pub fn new() -> (r: BoundaryStack)
        ensures
            r.open_scopes@.len() == 0,
    {
        BoundaryStack { open_scopes: Vec::new() }
    }

    /// Opens a fresh boundary; reads from now on register with it.
    pub fn enter(&mut self)
        ensures
            final(self).open_scopes@.len() == old(self).open_scopes@.len() + 1,
            forall|j: int| 0 <= j < old(self).open_scopes@.len()
                ==> final(self).open_scopes@[j] == old(self).open_scopes@[j],
            final(self).open_scopes@.last().registered@.len() == 0,
    {
        self.open_scopes.push(SuspenseScope { registered: Vec::new() });
    }

    /// A resource was read during the render pass: it registers with the
    /// innermost open boundary alone; outer boundaries never see it. Outside
    /// any boundary the read registers nowhere.
    pub fn register(&mut self, resource_id: usize)
        ensures
            final(self).open_scopes@.len() == old(self).open_scopes@.len(),
            forall|j: int| 0 <= j < old(self).open_scopes@.len() - 1
                ==> final(self).open_scopes@[j] == old(self).open_scopes@[j],
            old(self).open_scopes@.len() > 0 ==> final(self).open_scopes@.last().registered@
                =~= old(self).open_scopes@.last().registered@.push(resource_id),
            old(self).open_scopes@.len() == 0 ==> *final(self) == *old(self),
    {
        let n = self.open_scopes.len();
        if n > 0 {
            let inner = &mut self.open_scopes[n - 1];
            inner.registered.push(resource_id);
        }
    }

    /// Closes the innermost boundary and hands back what it collected.
    pub fn exit(&mut self) -> (s: Option<SuspenseScope>)
        ensures
            old(self).open_scopes@.len() == 0 ==> s is None
                && final(self).open_scopes@ == old(self).open_scopes@,
            old(self).open_scopes@.len() > 0 ==> {
                &&& s == Some(old(self).open_scopes@.last())
                &&& final(self).open_scopes@ =~= old(self).open_scopes@.drop_last()
            },
    {
        self.open_scopes.pop()
    }
}

} // verus!
