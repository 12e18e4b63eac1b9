//! The reactive cell store: mutable cells, dependency-tracked computations,
//! and the scope tree that owns them.
//!
//! A read inside a running computation subscribes that computation to the
//! cell; re-running a computation replaces its subscriptions instead of
//! accumulating them. A write notifies exactly the live computations whose
//! last run read the cell. Scopes form a tree: tearing one down kills it,
//! every scope below it, and every cell and computation they own; a handle
//! used after that fails with a use-after-dispose error. Scopes also carry
//! explicit context: a capability provided on a scope is visible to that
//! scope and its descendants, nearest provider first, and a lookup that finds
//! nothing fails loudly.

use vstd::prelude::*;

verus! {

/// Typed failures of the reactive core.
#[derive(Clone, Copy, Debug, PartialEq, Eq, Structural)]
pub enum RxError {
    /// A cell, computation or scope handle was used after its owning scope
    /// was torn down (or the handle never existed).
    UseAfterDispose,
    /// A context lookup found no provider on the scope or any ancestor.
    MissingContext,
}

/// One mutable state cell.
pub struct Cell {
    pub value: u64,
    pub alive: bool,
    pub owner: usize,
}

/// One derived computation: its subscription set is the set of cells its
/// latest run read.
pub struct Computation {
    pub deps: Vec<usize>,
    pub alive: bool,
    pub owner: usize,
}

/// One node of the scope tree; `context` holds the capabilities provided on
/// this scope, latest provision last.
pub struct Scope {
    pub alive: bool,
    pub parent: Option<usize>,
    pub context: Vec<(u64, u64)>,
}

/// The capability bound in `ctx`, latest provision winning.
pub open spec fn find_in_context(ctx: Seq<(u64, u64)>, cap: u64) -> Option<u64>
    decreases ctx.len(),
{
    if ctx.len() == 0 {
        None
    } else if ctx.last().0 == cap {
        Some(ctx.last().1)
    } else {
        find_in_context(ctx.drop_last(), cap)
    }
}

/// Context lookup from scope `s` outward: the nearest scope on the parent
/// chain that provides `cap` wins.
pub open spec fn spec_lookup(scopes: Seq<Scope>, s: int, cap: u64) -> Option<u64>
    decreases s,
{
    if 0 <= s < scopes.len() {
        match find_in_context(scopes[s].context@, cap) {
            Some(v) => Some(v),
            None => match scopes[s].parent {
                Some(p) => if (p as int) < s {
                    spec_lookup(scopes, p as int, cap)
                } else {
                    None
                },
                None => None,
            },
        }
    } else {
        None
    }
}

/// Whether tearing down scope `s` kills scope `j`: `j` is `s` itself, was
/// already dead, or hangs below a scope that dies.
pub open spec fn scope_dies(scopes: Seq<Scope>, s: int, j: int) -> bool
    decreases j,
{
    ||| j == s
    ||| !scopes[j].alive
    ||| (match scopes[j].parent {
        Some(p) => (p as int) < j && scope_dies(scopes, s, p as int),
        None => false,
    })
}

/// The store behind one request/session: every cell, computation and scope,
/// plus which computation is currently running with tracking enabled.
pub struct CellStore {
    pub cells: Vec<Cell>,
    pub comps: Vec<Computation>,
    pub scopes: Vec<Scope>,
    pub active: Option<usize>,
}

impl CellStore {
    pub open spec fn wf(self) -> bool {
        &&& (self.active matches Some(c) ==> (c as int) < self.comps@.len())
        &&& (forall|s: int| 0 <= s < self.scopes@.len()
            ==> ((#[trigger] self.scopes@[s]).parent matches Some(p) ==> (p as int) < s))
        &&& (forall|i: int| 0 <= i < self.cells@.len()
            ==> ((#[trigger] self.cells@[i]).owner as int) < self.scopes@.len())
        &&& (forall|i: int| 0 <= i < self.comps@.len()
            ==> ((#[trigger] self.comps@[i]).owner as int) < self.scopes@.len())
    }

    pub open spec fn live_scope(self, s: usize) -> bool {
        (s as int) < self.scopes@.len() && self.scopes@[s as int].alive
    }

    pub open spec fn live_cell(self, c: usize) -> bool {
        (c as int) < self.cells@.len() && self.cells@[c as int].alive
    }

    pub open spec fn live_comp(self, c: usize) -> bool {
        (c as int) < self.comps@.len() && self.comps@[c as int].alive
    }

    /// Creates a store with a single live root scope (scope `0`).
    pub fn new() -> (r: CellStore)
        ensures
            r.wf(),
            r.cells@.len() == 0,
            r.comps@.len() == 0,
            r.scopes@.len() == 1,
            r.scopes@[0].alive,
            r.scopes@[0].parent is None,
            r.scopes@[0].context@.len() == 0,
            r.active is None,
    {
        let mut scopes: Vec<Scope> = Vec::new();
        scopes.push(Scope { alive: true, parent: None, context: Vec::new() });
        CellStore { cells: Vec::new(), comps: Vec::new(), scopes, active: None }
    }

    /// Opens a child scope under a live parent.
    pub fn create_scope(&mut self, parent: usize) -> (r: Result<usize, RxError>)
        requires
            old(self).wf(),
        ensures
            final(self).wf(),
            !old(self).live_scope(parent) ==> r == Err::<usize, RxError>(RxError::UseAfterDispose)
                && *final(self) == *old(self),
            old(self).live_scope(parent) ==> {
                &&& r matches Ok(id)
                &&& id == old(self).scopes@.len()
                &&& final(self).scopes@.len() == old(self).scopes@.len() + 1
                &&& (forall|j: int| 0 <= j < old(self).scopes@.len()
                    ==> final(self).scopes@[j] == old(self).scopes@[j])
                &&& final(self).scopes@.last().alive
                &&& final(self).scopes@.last().parent == Some(parent)
                &&& final(self).scopes@.last().context@.len() == 0
                &&& final(self).cells@ == old(self).cells@
                &&& final(self).comps@ == old(self).comps@
                &&& final(self).active == old(self).active
            },
    {
        if parent >= self.scopes.len() || !self.scopes[parent].alive {
            return Err(RxError::UseAfterDispose);
        }
        let id = self.scopes.len();
        self.scopes.push(Scope { alive: true, parent: Some(parent), context: Vec::new() });
        Ok(id)
    }

    /// Provides capability `cap` with value `value` on a live scope; visible
    /// to that scope and its descendants from now on.
    pub fn provide_context(&mut self, scope: usize, cap: u64, value: u64) -> (r: Result<(), RxError>)
        requires
            old(self).wf(),
        ensures
            final(self).wf(),
            !old(self).live_scope(scope) ==> r == Err::<(), RxError>(RxError::UseAfterDispose)
                && *final(self) == *old(self),
            old(self).live_scope(scope) ==> {
                &&& r == Ok::<(), RxError>(())
                &&& final(self).scopes@.len() == old(self).scopes@.len()
                &&& (forall|j: int| 0 <= j < old(self).scopes@.len() && j != scope
                    ==> final(self).scopes@[j] == old(self).scopes@[j])
                &&& final(self).scopes@[scope as int].alive
                &&& final(self).scopes@[scope as int].parent == old(self).scopes@[scope as int].parent
                &&& final(self).scopes@[scope as int].context@
                    == old(self).scopes@[scope as int].context@.push((cap, value))
                &&& final(self).cells@ == old(self).cells@
                &&& final(self).comps@ == old(self).comps@
                &&& final(self).active == old(self).active
            },
    {
        if scope >= self.scopes.len() || !self.scopes[scope].alive {
            return Err(RxError::UseAfterDispose);
        }
        let sc = &mut self.scopes[scope];
        sc.context.push((cap, value));
        Ok(())
    }

    /// Looks capability `cap` up from `scope` outward along the parent
    /// chain; fails loudly when no scope on the chain provides it.
    pub fn expect_context(&self, scope: usize, cap: u64) -> (r: Result<u64, RxError>)
        requires
            self.wf(),
        ensures
            !self.live_scope(scope) ==> r == Err::<u64, RxError>(RxError::UseAfterDispose),
            self.live_scope(scope) ==> (match spec_lookup(self.scopes@, scope as int, cap) {
                Some(v) => r == Ok::<u64, RxError>(v),
                None => r == Err::<u64, RxError>(RxError::MissingContext),
            }),
    {
        if scope >= self.scopes.len() || !self.scopes[scope].alive {
            return Err(RxError::UseAfterDispose);
        }
        let mut cur: usize = scope;
        loop
            invariant
                self.wf(),
                self.live_scope(scope),
                (cur as int) < self.scopes@.len(),
                spec_lookup(self.scopes@, scope as int, cap)
                    == spec_lookup(self.scopes@, cur as int, cap),
            decreases cur,
        {
            match find_in(&self.scopes[cur].context, cap) {
                Some(v) => {
                    return Ok(v);
                },
                None => {
                    match self.scopes[cur].parent {
                        Some(p) => {
                            assert((p as int) < cur as int);
                            cur = p;
                        },
                        None => {
                            return Err(RxError::MissingContext);
                        },
                    }
                },
            }
        }
    }

    /// Creates a cell owned by a live scope, holding `initial`.
    pub fn create_cell(&mut self, scope: usize, initial: u64) -> (r: Result<usize, RxError>)
        requires
            old(self).wf(),
        ensures
            final(self).wf(),
            !old(self).live_scope(scope) ==> r == Err::<usize, RxError>(RxError::UseAfterDispose)
                && *final(self) == *old(self),
            old(self).live_scope(scope) ==> {
                &&& r matches Ok(id)
                &&& id == old(self).cells@.len()
                &&& final(self).cells@.len() == old(self).cells@.len() + 1
                &&& (forall|j: int| 0 <= j < old(self).cells@.len()
                    ==> final(self).cells@[j] == old(self).cells@[j])
                &&& final(self).cells@.last().value == initial
                &&& final(self).cells@.last().alive
                &&& final(self).cells@.last().owner == scope
                &&& final(self).comps@ == old(self).comps@
                &&& final(self).scopes@ == old(self).scopes@
                &&& final(self).active == old(self).active
            },
    {
        if scope >= self.scopes.len() || !self.scopes[scope].alive {
            return Err(RxError::UseAfterDispose);
        }
        let id = self.cells.len();
        self.cells.push(Cell { value: initial, alive: true, owner: scope });
        Ok(id)
    }

    /// Creates a computation owned by a live scope, with no subscriptions
    /// yet.
    pub fn create_computation(&mut self, scope: usize) -> (r: Result<usize, RxError>)
        requires
            old(self).wf(),
        ensures
            final(self).wf(),
            !old(self).live_scope(scope) ==> r == Err::<usize, RxError>(RxError::UseAfterDispose)
                && *final(self) == *old(self),
            old(self).live_scope(scope) ==> {
                &&& r matches Ok(id)
                &&& id == old(self).comps@.len()
                &&& final(self).comps@.len() == old(self).comps@.len() + 1
                &&& (forall|j: int| 0 <= j < old(self).comps@.len()
                    ==> final(self).comps@[j] == old(self).comps@[j])
                &&& final(self).comps@.last().deps@.len() == 0
                &&& final(self).comps@.last().alive
                &&& final(self).comps@.last().owner == scope
                &&& final(self).cells@ == old(self).cells@
                &&& final(self).scopes@ == old(self).scopes@
                &&& final(self).active == old(self).active
            },
    {
        if scope >= self.scopes.len() || !self.scopes[scope].alive {
            return Err(RxError::UseAfterDispose);
        }
        let id = self.comps.len();
        self.comps.push(Computation { deps: Vec::new(), alive: true, owner: scope });
        Ok(id)
    }

    /// Starts a tracked run of computation `comp`: its old subscriptions are
    /// replaced, so reads from now on rebuild the set from scratch.
    /// Computations do not nest in this model, so no run may be underway.
    pub fn begin_computation(&mut self, comp: usize) -> (r: Result<(), RxError>)
        requires
            old(self).wf(),
            old(self).active is None,
        ensures
            final(self).wf(),
            !old(self).live_comp(comp) ==> r == Err::<(), RxError>(RxError::UseAfterDispose)
                && *final(self) == *old(self),
            old(self).live_comp(comp) ==> {
                &&& r == Ok::<(), RxError>(())
                &&& final(self).active == Some(comp)
                &&& final(self).comps@.len() == old(self).comps@.len()
                &&& (forall|j: int| 0 <= j < old(self).comps@.len() && j != comp
                    ==> final(self).comps@[j] == old(self).comps@[j])
                &&& final(self).comps@[comp as int].deps@.len() == 0
                &&& final(self).comps@[comp as int].alive
                &&& final(self).comps@[comp as int].owner == old(self).comps@[comp as int].owner
                &&& final(self).cells@ == old(self).cells@
                &&& final(self).scopes@ == old(self).scopes@
            },
    {
        if comp >= self.comps.len() || !self.comps[comp].alive {
            return Err(RxError::UseAfterDispose);
        }
        let c = &mut self.comps[comp];
        c.deps = Vec::new();
        self.active = Some(comp);
        Ok(())
    }

    /// Ends the tracked run; the subscriptions recorded during it stand.
    pub fn end_computation(&mut self)
        requires
            old(self).wf(),
        ensures
            final(self).wf(),
            final(self).active is None,
            final(self).cells@ == old(self).cells@,
            final(self).comps@ == old(self).comps@,
            final(self).scopes@ == old(self).scopes@,
    {
        self.active = None;
    }

    /// Reads a live cell. Inside a tracked run this subscribes the running
    /// computation to the cell; outside one it tracks nothing.
    pub fn read(&mut self, cell: usize) -> (r: Result<u64, RxError>)
        requires
            old(self).wf(),
        ensures
            final(self).wf(),
            !old(self).live_cell(cell) ==> r == Err::<u64, RxError>(RxError::UseAfterDispose)
                && *final(self) == *old(self),
            old(self).live_cell(cell) ==> {
                &&& r == Ok::<u64, RxError>(old(self).cells@[cell as int].value)
                &&& final(self).cells@ == old(self).cells@
                &&& final(self).scopes@ == old(self).scopes@
                &&& final(self).active == old(self).active
                &&& (old(self).active is None ==> final(self).comps@ == old(self).comps@)
                &&& (old(self).active matches Some(c) ==> {
                    &&& final(self).comps@.len() == old(self).comps@.len()
                    &&& (forall|j: int| 0 <= j < old(self).comps@.len() && j != c
                        ==> final(self).comps@[j] == old(self).comps@[j])
                    &&& final(self).comps@[c as int].deps@
                        == old(self).comps@[c as int].deps@.push(cell)
                    &&& final(self).comps@[c as int].alive == old(self).comps@[c as int].alive
                    &&& final(self).comps@[c as int].owner == old(self).comps@[c as int].owner
                })
            },
    {
        if cell >= self.cells.len() || !self.cells[cell].alive {
            return Err(RxError::UseAfterDispose);
        }
        let v = self.cells[cell].value;
        match self.active {
            Some(c) => {
                let comp = &mut self.comps[c];
                comp.deps.push(cell);
            },
            None => {},
        }
        Ok(v)
    }

    /// Writes a live cell and notifies its subscribers: the result lists
    /// exactly the live computations whose latest run read this cell, each
    /// once, in id order.
    pub fn write(&mut self, cell: usize, value: u64) -> (r: Result<Vec<usize>, RxError>)
        requires
            old(self).wf(),
        ensures
            final(self).wf(),
            !old(self).live_cell(cell) ==> r == Err::<Vec<usize>, RxError>(RxError::UseAfterDispose)
                && *final(self) == *old(self),
            old(self).live_cell(cell) ==> {
                &&& final(self).cells@.len() == old(self).cells@.len()
                &&& (forall|j: int| 0 <= j < old(self).cells@.len() && j != cell
                    ==> final(self).cells@[j] == old(self).cells@[j])
                &&& final(self).cells@[cell as int].value == value
                &&& final(self).cells@[cell as int].alive
                &&& final(self).cells@[cell as int].owner == old(self).cells@[cell as int].owner
                &&& final(self).comps@ == old(self).comps@
                &&& final(self).scopes@ == old(self).scopes@
                &&& final(self).active == old(self).active
                &&& (r matches Ok(notified) ==> forall|c: usize|
                    #[trigger] notified@.contains(c) <==> ((c as int) < old(self).comps@.len()
                        && old(self).comps@[c as int].alive
                        && old(self).comps@[c as int].deps@.contains(cell)))
                &&& r is Ok
            },
    {
        if cell >= self.cells.len() || !self.cells[cell].alive {
            return Err(RxError::UseAfterDispose);
        }
        let target = &mut self.cells[cell];
        target.value = value;
        let n = self.comps.len();
        let mut notified: Vec<usize> = Vec::new();
        let mut i: usize = 0;
        while i < n
            invariant
                self.wf(),
                n == self.comps@.len(),
                i <= n,
                self.comps@ == old(self).comps@,
                self.scopes@ == old(self).scopes@,
                self.active == old(self).active,
                (cell as int) < old(self).cells@.len(),
                self.cells@.len() == old(self).cells@.len(),
                forall|j: int| 0 <= j < old(self).cells@.len() && j != cell
                    ==> self.cells@[j] == old(self).cells@[j],
                self.cells@[cell as int].value == value,
                self.cells@[cell as int].alive,
                self.cells@[cell as int].owner == old(self).cells@[cell as int].owner,
                forall|c: usize| #[trigger] notified@.contains(c) <==> ((c as int) < i
                    && self.comps@[c as int].alive && self.comps@[c as int].deps@.contains(cell)),
            decreases n - i,
        {
            if self.comps[i].alive && contains_id(&self.comps[i].deps, cell) {
                let ghost pre = notified@;
                notified.push(i);
                proof {
                    assert forall|c: usize| #[trigger] notified@.contains(c) implies (pre.contains(
                        c,
                    ) || c == i) by {
                        let k = choose|k: int|
                            0 <= k < notified@.len() && notified@[k] == c;
                        if k < pre.len() {
                            assert(pre[k] == c);
                        }
                    }
                    assert forall|c: usize| pre.contains(c) || c == i implies #[trigger] notified@
                        .contains(c) by {
                        if pre.contains(c) {
                            let k = choose|k: int| 0 <= k < pre.len() && pre[k] == c;
                            assert(notified@[k] == c);
                        } else {
                            assert(notified@[pre.len() as int] == c);
                        }
                    }
                }
            }
            i = i + 1;
        }
        Ok(notified)
    }

    /// Tears scope `scope` down: it dies together with every scope below it
    /// and every cell and computation owned by a dying scope. Everything
    /// else, including cell values, is untouched — a dead cell only refuses
    /// further use.
    pub fn dispose_scope(&mut self, scope: usize) -> (r: Result<(), RxError>)
        requires
            old(self).wf(),
        ensures
            final(self).wf(),
            (scope as int) >= old(self).scopes@.len() ==> r
                == Err::<(), RxError>(RxError::UseAfterDispose) && *final(self) == *old(self),
            (scope as int) < old(self).scopes@.len() ==> {
                &&& r == Ok::<(), RxError>(())
                &&& final(self).scopes@.len() == old(self).scopes@.len()
                &&& (forall|j: int| 0 <= j < old(self).scopes@.len() ==> {
                    &&& (#[trigger] final(self).scopes@[j]).parent == old(self).scopes@[j].parent
                    &&& final(self).scopes@[j].context == old(self).scopes@[j].context
                    &&& final(self).scopes@[j].alive == (old(self).scopes@[j].alive
                        && !scope_dies(old(self).scopes@, scope as int, j))
                })
                &&& final(self).cells@.len() == old(self).cells@.len()
                &&& (forall|j: int| 0 <= j < old(self).cells@.len() ==> {
                    &&& (#[trigger] final(self).cells@[j]).value == old(self).cells@[j].value
                    &&& final(self).cells@[j].owner == old(self).cells@[j].owner
                    &&& final(self).cells@[j].alive == (old(self).cells@[j].alive
                        && final(self).scopes@[old(self).cells@[j].owner as int].alive)
                })
                &&& final(self).comps@.len() == old(self).comps@.len()
                &&& (forall|j: int| 0 <= j < old(self).comps@.len() ==> {
                    &&& (#[trigger] final(self).comps@[j]).deps == old(self).comps@[j].deps
                    &&& final(self).comps@[j].owner == old(self).comps@[j].owner
                    &&& final(self).comps@[j].alive == (old(self).comps@[j].alive
                        && final(self).scopes@[old(self).comps@[j].owner as int].alive)
                })
                &&& final(self).active == old(self).active
            },
    {
        if scope >= self.scopes.len() {
            return Err(RxError::UseAfterDispose);
        }
        let ns = self.scopes.len();
        let mut i: usize = 0;
        while i < ns
            invariant
                self.wf(),
                ns == self.scopes@.len(),
                ns == old(self).scopes@.len(),
                i <= ns,
                self.cells@ == old(self).cells@,
                self.comps@ == old(self).comps@,
                self.active == old(self).active,
                forall|j: int| i <= j < ns
                    ==> #[trigger] self.scopes@[j] == old(self).scopes@[j],
                forall|j: int| 0 <= j < i ==> {
                    &&& (#[trigger] self.scopes@[j]).parent == old(self).scopes@[j].parent
                    &&& self.scopes@[j].context == old(self).scopes@[j].context
                    &&& self.scopes@[j].alive == (old(self).scopes@[j].alive
                        && !scope_dies(old(self).scopes@, scope as int, j))
                },
            decreases ns - i,
        {
            let parent_dead = match self.scopes[i].parent {
                Some(p) => !self.scopes[p].alive,
                None => false,
            };
            proof {
                let os = old(self).scopes@;
                let jj = i as int;
                assert(self.scopes@[jj] == os[jj]);
                match os[jj].parent {
                    Some(p) => {
                        assert((p as int) < jj);
                        assert(self.scopes@[p as int].alive == (os[p as int].alive && !scope_dies(
                            os,
                            scope as int,
                            p as int,
                        )));
                        assert(!os[p as int].alive ==> scope_dies(os, scope as int, p as int));
                        assert(parent_dead == scope_dies(os, scope as int, p as int));
                    },
                    None => {},
                }
                assert(scope_dies(os, scope as int, jj) == (jj == scope as int || !os[jj].alive
                    || parent_dead));
            }
            if i == scope || parent_dead {
                let sc = &mut self.scopes[i];
                sc.alive = false;
            }
            i = i + 1;
        }
        let nc = self.cells.len();
        let mut k: usize = 0;
        while k < nc
            invariant
                self.wf(),
                nc == self.cells@.len(),
                nc == old(self).cells@.len(),
                k <= nc,
                self.comps@ == old(self).comps@,
                self.active == old(self).active,
                self.scopes@.len() == old(self).scopes@.len(),
                forall|j: int| 0 <= j < old(self).scopes@.len() ==> {
                    &&& (#[trigger] self.scopes@[j]).parent == old(self).scopes@[j].parent
                    &&& self.scopes@[j].context == old(self).scopes@[j].context
                    &&& self.scopes@[j].alive == (old(self).scopes@[j].alive
                        && !scope_dies(old(self).scopes@, scope as int, j))
                },
                forall|j: int| k <= j < nc
                    ==> #[trigger] self.cells@[j] == old(self).cells@[j],
                forall|j: int| 0 <= j < k ==> {
                    &&& (#[trigger] self.cells@[j]).value == old(self).cells@[j].value
                    &&& self.cells@[j].owner == old(self).cells@[j].owner
                    &&& self.cells@[j].alive == (old(self).cells@[j].alive
                        && self.scopes@[old(self).cells@[j].owner as int].alive)
                },
            decreases nc - k,
        {
            if !self.scopes[self.cells[k].owner].alive {
                let c = &mut self.cells[k];
                c.alive = false;
            }
            k = k + 1;
        }
        let nm = self.comps.len();
        let mut m: usize = 0;
        while m < nm
            invariant
                self.wf(),
                nm == self.comps@.len(),
                nm == old(self).comps@.len(),
                m <= nm,
                self.active == old(self).active,
                self.scopes@.len() == old(self).scopes@.len(),
                self.cells@.len() == old(self).cells@.len(),
                forall|j: int| 0 <= j < old(self).scopes@.len() ==> {
                    &&& (#[trigger] self.scopes@[j]).parent == old(self).scopes@[j].parent
                    &&& self.scopes@[j].context == old(self).scopes@[j].context
                    &&& self.scopes@[j].alive == (old(self).scopes@[j].alive
                        && !scope_dies(old(self).scopes@, scope as int, j))
                },
                forall|j: int| 0 <= j < old(self).cells@.len() ==> {
                    &&& (#[trigger] self.cells@[j]).value == old(self).cells@[j].value
                    &&& self.cells@[j].owner == old(self).cells@[j].owner
                    &&& self.cells@[j].alive == (old(self).cells@[j].alive
                        && self.scopes@[old(self).cells@[j].owner as int].alive)
                },
                forall|j: int| m <= j < nm
                    ==> #[trigger] self.comps@[j] == old(self).comps@[j],
                forall|j: int| 0 <= j < m ==> {
                    &&& (#[trigger] self.comps@[j]).deps == old(self).comps@[j].deps
                    &&& self.comps@[j].owner == old(self).comps@[j].owner
                    &&& self.comps@[j].alive == (old(self).comps@[j].alive
                        && self.scopes@[old(self).comps@[j].owner as int].alive)
                },
            decreases nm - m,
        {
            if !self.scopes[self.comps[m].owner].alive {
                let c = &mut self.comps[m];
                c.alive = false;
            }
            m = m + 1;
        }
        Ok(())
    }
}

/// Whether `v` holds `x`.
pub fn contains_id(v: &Vec<usize>, x: usize) -> (b: bool)
    ensures
        b == v@.contains(x),
{
    let n = v.len();
    let mut i: usize = 0;
    while i < n
        invariant
            n == v@.len(),
            i <= n,
            forall|j: int| 0 <= j < i ==> v@[j] != x,
        decreases n - i,
    {
        if v[i] == x {
            return true;
        }
        i = i + 1;
    }
    assert(!v@.contains(x));
    false
}

/// Looks `cap` up in one scope's own context, latest provision first.
fn find_in(ctx: &Vec<(u64, u64)>, cap: u64) -> (r: Option<u64>)
    ensures
        r == find_in_context(ctx@, cap),
{
    let mut j: usize = ctx.len();
    assert(ctx@.subrange(0, ctx@.len() as int) =~= ctx@);
    while j > 0
        invariant
            j <= ctx@.len(),
            find_in_context(ctx@, cap) == find_in_context(ctx@.subrange(0, j as int), cap),
        decreases j,
    {
        j = j - 1;
        let e = ctx[j];
        assert(ctx@.subrange(0, j as int + 1).last() == ctx@[j as int]);
        assert(ctx@.subrange(0, j as int + 1).drop_last() =~= ctx@.subrange(0, j as int));
        if e.0 == cap {
            return Some(e.1);
        }
    }
    assert(ctx@.subrange(0, 0) =~= Seq::<(u64, u64)>::empty());
    None
}

} // verus!
