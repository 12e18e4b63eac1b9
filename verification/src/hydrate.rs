//! The hydration partitioner: on the client, each island boundary found in
//! the server-rendered markup gets a fresh reactive scope rebuilt from its
//! serialized payload alone.
//!
//! Hydration never splices a server-computed snapshot into a client-side
//! computation: the island's whole dependency chain — its cells and the
//! subscription set of its render computation — is rebuilt from scratch, and
//! the computation subscribes exactly to the island's own fresh cells. That
//! is what makes islands independent: writes inside one island can never
//! re-render another.

use vstd::prelude::*;
use crate::island::IslandPayload;
use crate::island::dec_u64;
use crate::island::read_u64;
use crate::reactive::CellStore;
use crate::reactive::RxError;

verus! {

/// One island reconnected on the client: its fresh scope, the cells rebuilt
/// from its props, and its render computation.
pub struct HydratedIsland {
    pub scope: usize,
    pub cells: Vec<usize>,
    pub comp: usize,
}

/// The low `k` bytes of `s`, read as a little-endian word.
pub open spec fn partial_le(s: Seq<u8>, k: int) -> u64
    decreases k,
{
    if k <= 0 {
        0u64
    } else {
        partial_le(s, k - 1) | ((s[k - 1] as u64) << ((8 * (k - 1)) as u64))
    }
}

/// The initial cell value a serialized prop seeds on the client: the value
/// bytes' little-endian 64-bit prefix, zero-extended when shorter.
pub open spec fn prop_seed(value: Seq<u8>) -> u64 {
    if value.len() >= 8 {
        dec_u64(value.subrange(0, 8))
    } else {
        partial_le(value, value.len() as int)
    }
}

/// Computes `prop_seed` of the value bytes.
pub fn seed_of(value: &Vec<u8>) -> (r: u64)
    ensures
        r == prop_seed(value@),
{
    let n = value.len();
    if n >= 8 {
        let r = read_u64(value, 0);
        proof {
            assert(value@.subrange(0 as int, 0 as int + 8) =~= value@.subrange(0, 8));
        }
        r
    } else {
        let mut acc: u64 = 0;
        let mut i: usize = 0;
        while i < n
            invariant
                n == value@.len(),
                n < 8,
                i <= n,
                acc == partial_le(value@, i as int),
            decreases n - i,
        {
            let shift: u64 = 8 * (i as u64);
            acc = acc | ((value[i] as u64) << shift);
            i = i + 1;
        }
        acc
    }
}

/// A hydrated island is wired into `store` and self-contained: its render
/// computation subscribes to the island's own cells only.
pub open spec fn island_wf(isl: HydratedIsland, store: CellStore) -> bool {
    &&& (isl.comp as int) < store.comps@.len()
    &&& (forall|j: int| 0 <= j < isl.cells@.len()
        ==> ((#[trigger] isl.cells@[j]) as int) < store.cells@.len())
    &&& (forall|d: usize| store.comps@[isl.comp as int].deps@.contains(d)
        ==> isl.cells@.contains(d))
}

/// No cell belongs to both islands, and their computations differ.
pub open spec fn islands_disjoint(a: HydratedIsland, b: HydratedIsland) -> bool {
    &&& (forall|c: usize| #[trigger] a.cells@.contains(c) ==> !b.cells@.contains(c))
    &&& a.comp != b.comp
}

/// Law: islands hydrate independently. `notified` is what writing a cell of
/// island `a` returned from the store — it can never hold island `b`'s
/// render computation, so mutating state in one island re-renders nothing of
/// the other.
pub proof fn lemma_island_independence(
    store: CellStore,
    a: HydratedIsland,
    b: HydratedIsland,
    cell: usize,
    notified: Seq<usize>,
)
    requires
        island_wf(a, store),
        island_wf(b, store),
        islands_disjoint(a, b),
        a.cells@.contains(cell),
        forall|c: usize| #[trigger] notified.contains(c) ==> (c as int) < store.comps@.len()
            && store.comps@[c as int].deps@.contains(cell),
    ensures
        !notified.contains(b.comp),
{
    if notified.contains(b.comp) {
        assert(store.comps@[b.comp as int].deps@.contains(cell));
        assert(b.cells@.contains(cell));
        assert(!b.cells@.contains(cell));
    }
}

/// Islands whose cell ids lie on opposite sides of a bound share no cell;
/// successive hydrations produce exactly that.
pub proof fn lemma_separate_ranges_disjoint(a: HydratedIsland, b: HydratedIsland, bound: usize)
    requires
        forall|j: int| 0 <= j < a.cells@.len() ==> ((#[trigger] a.cells@[j]) as int) < bound,
        forall|j: int| 0 <= j < b.cells@.len() ==> ((#[trigger] b.cells@[j]) as int) >= bound,
        a.comp != b.comp,
    ensures
        islands_disjoint(a, b),
{
    assert forall|c: usize| #[trigger] a.cells@.contains(c) implies !b.cells@.contains(c) by {
        let j = choose|j: int| 0 <= j < a.cells@.len() && a.cells@[j] == c;
        assert((c as int) < bound);
        if b.cells@.contains(c) {
            let k = choose|k: int| 0 <= k < b.cells@.len() && b.cells@[k] == c;
            assert((c as int) >= bound);
        }
    }
}

/// Reconnects one island boundary: a fresh scope under `parent`, one cell
/// per serialized prop seeded from the payload alone, and a render
/// computation whose subscriptions are rebuilt from scratch over exactly
/// those fresh cells — no server-computed state is spliced in.
pub fn hydrate_island(store: &mut CellStore, parent: usize, payload: &IslandPayload) -> (r: Result<
    HydratedIsland,
    RxError,
>)
    requires
        old(store).wf(),
        old(store).active is None,
    ensures
        final(store).wf(),
        final(store).active is None,
        !old(store).live_scope(parent) ==> r == Err::<HydratedIsland, RxError>(
            RxError::UseAfterDispose,
        ) && *final(store) == *old(store),
        r matches Ok(isl) ==> {
            &&& island_wf(isl, *final(store))
            &&& isl.scope == old(store).scopes@.len()
            &&& isl.comp == old(store).comps@.len()
            &&& isl.cells@.len() == payload.props@.len()
            &&& (forall|j: int| 0 <= j < isl.cells@.len() ==> (#[trigger] isl.cells@[j]) as int
                == old(store).cells@.len() + j)
            &&& final(store).cells@.len() == old(store).cells@.len() + payload.props@.len()
            &&& (forall|k: int| 0 <= k < old(store).cells@.len()
                ==> final(store).cells@[k] == old(store).cells@[k])
            &&& (forall|k: int| 0 <= k < payload.props@.len() ==> {
                &&& (#[trigger] final(store).cells@[old(store).cells@.len() + k]).value
                    == prop_seed(payload.props@[k]@.value)
                &&& final(store).cells@[old(store).cells@.len() + k].alive
                &&& final(store).cells@[old(store).cells@.len() + k].owner == isl.scope
            })
            &&& final(store).comps@.len() == old(store).comps@.len() + 1
            &&& (forall|k: int| 0 <= k < old(store).comps@.len()
                ==> final(store).comps@[k] == old(store).comps@[k])
            &&& final(store).comps@[isl.comp as int].deps@ == isl.cells@
            &&& final(store).comps@[isl.comp as int].alive
            &&& final(store).comps@[isl.comp as int].owner == isl.scope
            &&& final(store).scopes@.len() == old(store).scopes@.len() + 1
            &&& (forall|k: int| 0 <= k < old(store).scopes@.len()
                ==> final(store).scopes@[k] == old(store).scopes@[k])
            &&& final(store).scopes@[isl.scope as int].alive
            &&& final(store).scopes@[isl.scope as int].parent == Some(parent)
        },
        old(store).live_scope(parent) ==> r is Ok,
{
    let scope = match store.create_scope(parent) {
        Ok(s) => s,
        Err(e) => {
            return Err(e);
        },
    };
    proof {
        assert(store.scopes@[scope as int] == store.scopes@.last());
    }
    let ghost s1 = *store;
    let ghost base = store.cells@.len() as int;
    let mut cells: Vec<usize> = Vec::new();
    let nprops = payload.props.len();
    let mut j: usize = 0;
    while j < nprops
        invariant
            store.wf(),
            store.live_scope(scope),
            store.active is None,
            s1.wf(),
            nprops == payload.props@.len(),
            j <= nprops,
            base == s1.cells@.len(),
            store.cells@.len() == base + j,
            cells@.len() == j,
            forall|k: int| 0 <= k < j ==> (#[trigger] cells@[k]) as int == base + k,
            forall|k: int| 0 <= k < base ==> #[trigger] store.cells@[k] == s1.cells@[k],
            forall|k: int| 0 <= k < j ==> {
                &&& (#[trigger] store.cells@[base + k]).value == prop_seed(
                    payload.props@[k]@.value,
                )
                &&& store.cells@[base + k].alive
                &&& store.cells@[base + k].owner == scope
            },
            store.comps@ == s1.comps@,
            store.scopes@ == s1.scopes@,
        decreases nprops - j,
    {
        let seed = seed_of(&payload.props[j].value);
        let id = match store.create_cell(scope, seed) {
            Ok(id) => id,
            Err(e) => {
                return Err(e);
            },
        };
        cells.push(id);
        j = j + 1;
    }
    let comp = match store.create_computation(scope) {
        Ok(c) => c,
        Err(e) => {
            return Err(e);
        },
    };
    match store.begin_computation(comp) {
        Ok(()) => {},
        Err(e) => {
            return Err(e);
        },
    }
    let ghost s2 = *store;
    proof {
        assert(store.comps@[comp as int].deps@ =~= cells@.subrange(0, 0));
    }
    let mut t: usize = 0;
    while t < nprops
        invariant
            store.wf(),
            nprops == payload.props@.len(),
            t <= nprops,
            cells@.len() == nprops,
            (comp as int) < store.comps@.len(),
            store.active == Some(comp),
            forall|k: int| 0 <= k < nprops ==> (#[trigger] cells@[k]) as int == base + k,
            store.cells@ == s2.cells@,
            base + nprops == store.cells@.len(),
            forall|k: int| 0 <= k < nprops ==> (#[trigger] store.cells@[base + k]).alive,
            store.scopes@ == s2.scopes@,
            store.comps@.len() == s2.comps@.len(),
            forall|k: int| 0 <= k < store.comps@.len() && k != comp
                ==> #[trigger] store.comps@[k] == s2.comps@[k],
            store.comps@[comp as int].deps@ == cells@.subrange(0, t as int),
            store.comps@[comp as int].alive == s2.comps@[comp as int].alive,
            store.comps@[comp as int].owner == s2.comps@[comp as int].owner,
        decreases nprops - t,
    {
        let cell = cells[t];
        match store.read(cell) {
            Ok(_) => {},
            Err(e) => {
                return Err(e);
            },
        }
        proof {
            assert(cells@.subrange(0, t as int).push(cells@[t as int]) =~= cells@.subrange(
                0,
                t as int + 1,
            ));
        }
        t = t + 1;
    }
    store.end_computation();
    proof {
        assert(cells@.subrange(0, nprops as int) =~= cells@);
    }
    Ok(HydratedIsland { scope, cells, comp })
}

} // verus!
