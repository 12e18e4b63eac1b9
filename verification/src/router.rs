//! Route matching and the permission-gated guard.
//!
//! A route pattern is a list of segments, each a literal or a named
//! parameter that binds whatever stands in its place. Among the entries
//! that match a path in full, the one binding the most literal segments
//! wins; on ties the earlier entry does. An entry
//! may nest child routes: its own pattern then consumes a prefix of the path
//! and the first child whose pattern matches the remainder fills the
//! parent's outlet; with no remainder the outlet stays empty. A guarded
//! entry renders nothing while its condition is unresolved, and redirects —
//! without ever constructing the protected view — once it is denied.

use vstd::prelude::*;

verus! {

/// One segment of a route pattern.
pub enum Seg {
    /// Matches exactly this text.
    Lit(String),
    /// Matches any segment, binding it under this name.
    Param(String),
}

/// The guard's resolution state machine.
#[derive(Clone, Copy, Debug, PartialEq, Eq, Structural)]
pub enum GuardState {
    Unresolved,
    Admitted,
    Denied,
}

impl GuardState {
    /// Feeds the guard its condition's current observation: nothing yet, a
    /// boolean, or a condition error. Resolution is final, and an erroring
    /// condition denies — the guard fails closed.
    pub fn step(self, cond: Option<Result<bool, u64>>) -> (r: GuardState)
        ensures
            !(self is Unresolved) ==> r == self,
            self is Unresolved ==> r == (match cond {
                None => GuardState::Unresolved,
                Some(Ok(true)) => GuardState::Admitted,
                Some(Ok(false)) => GuardState::Denied,
                Some(Err(_)) => GuardState::Denied,
            }),
    {
        match self {
            GuardState::Unresolved => match cond {
                None => GuardState::Unresolved,
                Some(Ok(true)) => GuardState::Admitted,
                Some(Ok(false)) => GuardState::Denied,
                Some(Err(_)) => GuardState::Denied,
            },
            s => s,
        }
    }
}

/// A guard attached to a route subtree: its state and where a denied
/// navigation is sent instead.
pub struct GuardConfig {
    pub state: GuardState,
    pub redirect: Vec<String>,
}

/// A nested route under a parent entry.
pub struct ChildRoute {
    pub pattern: Vec<Seg>,
    pub view: u64,
}

/// One route table entry: a pattern, the view it selects, an optional
/// guard, and optional nested routes.
pub struct RouteEntry {
    pub pattern: Vec<Seg>,
    pub view: u64,
    pub guard: Option<GuardConfig>,
    pub children: Vec<ChildRoute>,
}

/// What resolving a path against a table yields.
pub enum RouteOutcome {
    /// No entry matched; the caller renders its not-found fallback.
    NotFound,
    /// The matched entry is guarded and the guard is unresolved: nothing of
    /// the protected subtree is constructed yet.
    Suspended,
    /// The matched entry's guard denied: navigate here instead; the
    /// protected view is never constructed.
    Redirect(Vec<String>),
    /// The matched view, the child view filling its outlet if any, and the
    /// bound parameters.
    Render { view: u64, outlet: Option<u64>, params: Vec<(String, String)> },
}

/// The path's segments as character sequences.
pub open spec fn path_view(path: Seq<String>) -> Seq<Seq<char>> {
    path.map_values(|s: String| s@)
}

/// Bound parameters as character sequences.
pub open spec fn params_view(ps: Seq<(String, String)>) -> Seq<(Seq<char>, Seq<char>)> {
    ps.map_values(|p: (String, String)| (p.0@, p.1@))
}

pub open spec fn seg_matches(seg: Seg, part: Seq<char>) -> bool {
    match seg {
        Seg::Lit(l) => l@ == part,
        Seg::Param(_) => true,
    }
}

/// The pattern matches the path in full.
pub open spec fn segs_match(pat: Seq<Seg>, path: Seq<Seq<char>>) -> bool {
    &&& pat.len() == path.len()
    &&& forall|i: int| 0 <= i < pat.len() ==> seg_matches(#[trigger] pat[i], path[i])
}

/// The parameters a matching pattern binds, from position `i` on.
pub open spec fn spec_params(pat: Seq<Seg>, path: Seq<Seq<char>>, i: int) -> Seq<
    (Seq<char>, Seq<char>),
>
    decreases pat.len() - i,
{
    if i < 0 || i >= pat.len() {
        Seq::empty()
    } else {
        match pat[i] {
            Seg::Param(n) => seq![(n@, path[i])] + spec_params(pat, path, i + 1),
            Seg::Lit(_) => spec_params(pat, path, i + 1),
        }
    }
}

/// The first child whose pattern matches the remainder, from `i` on.
pub open spec fn first_child(children: Seq<ChildRoute>, rest: Seq<Seq<char>>, i: int) -> Option<
    int,
>
    decreases children.len() - i,
{
    if i < 0 || i >= children.len() {
        None
    } else if segs_match(children[i].pattern@, rest) {
        Some(i)
    } else {
        first_child(children, rest, i + 1)
    }
}

/// Whether the entry matches the whole path: childless entries match in
/// full; an entry with children consumes a prefix and needs a matching
/// child for the remainder, or no remainder at all (empty outlet).
pub open spec fn entry_matches(e: RouteEntry, path: Seq<Seq<char>>) -> bool {
    if e.children@.len() == 0 {
        segs_match(e.pattern@, path)
    } else {
        &&& e.pattern@.len() <= path.len()
        &&& segs_match(e.pattern@, path.subrange(0, e.pattern@.len() as int))
        &&& (path.len() == e.pattern@.len() || first_child(
            e.children@,
            path.skip(e.pattern@.len() as int),
            0,
        ) is Some)
    }
}

/// How many literal segments a pattern holds.
pub open spec fn lit_count(pat: Seq<Seg>) -> int
    decreases pat.len(),
{
    if pat.len() == 0 {
        0
    } else {
        (if pat[0] is Lit {
            1int
        } else {
            0int
        }) + lit_count(pat.drop_first())
    }
}

/// How specific a matching entry is: the literal segments its pattern — and
/// the matching child's, if one fills the outlet — bind on this path.
pub open spec fn entry_score(e: RouteEntry, path: Seq<Seq<char>>) -> int {
    if e.children@.len() == 0 {
        lit_count(e.pattern@)
    } else {
        lit_count(e.pattern@) + (match first_child(
            e.children@,
            path.skip(e.pattern@.len() as int),
            0,
        ) {
            Some(c) => lit_count(e.children@[c].pattern@),
            None => 0,
        })
    }
}

/// The winning entry among the first `i`: the matching entry with the most
/// literal segments, the earlier one on ties.
pub open spec fn best_upto(entries: Seq<RouteEntry>, path: Seq<Seq<char>>, i: int) -> Option<int>
    decreases i,
{
    if i <= 0 {
        None
    } else {
        let prev = best_upto(entries, path, i - 1);
        if !entry_matches(entries[i - 1], path) {
            prev
        } else {
            match prev {
                None => Some(i - 1),
                Some(j) => if entry_score(entries[i - 1], path) > entry_score(entries[j], path) {
                    Some(i - 1)
                } else {
                    Some(j)
                },
            }
        }
    }
}

/// Counts the literal segments of `pat`.
fn lit_segs(pat: &Vec<Seg>) -> (n: usize)
    ensures
        n as int == lit_count(pat@),
        n <= pat@.len(),
{
    let m = pat.len();
    let mut count: usize = 0;
    let mut i: usize = 0;
    proof {
        assert(pat@.skip(0) =~= pat@);
    }
    while i < m
        invariant
            m == pat@.len(),
            i <= m,
            count <= i,
            count as int + lit_count(pat@.skip(i as int)) == lit_count(pat@),
        decreases m - i,
    {
        proof {
            assert(pat@.skip(i as int)[0] == pat@[i as int]);
            assert(pat@.skip(i as int).drop_first() =~= pat@.skip(i as int + 1));
        }
        match &pat[i] {
            Seg::Lit(_) => {
                count = count + 1;
            },
            Seg::Param(_) => {},
        }
        i = i + 1;
    }
    proof {
        assert(pat@.skip(m as int) =~= Seq::<Seg>::empty());
    }
    count
}

/// Matches `pat` against the window of `path` starting at `start`; yields
/// the bound parameters exactly when the window exists and matches.
pub fn match_at(pat: &Vec<Seg>, path: &Vec<String>, start: usize) -> (r: Option<
    Vec<(String, String)>,
>)
    requires
        start <= path@.len(),
    ensures
        r is Some <==> (start + pat@.len() <= path@.len() && segs_match(
            pat@,
            path_view(path@).subrange(start as int, start as int + pat@.len() as int),
        )),
        r matches Some(ps) ==> params_view(ps@) == spec_params(
            pat@,
            path_view(path@).subrange(start as int, start as int + pat@.len() as int),
            0,
        ),
{
    let m = pat.len();
    let total = path.len();
    if total - start < m {
        return None;
    }
    let ghost win = path_view(path@).subrange(start as int, start as int + m as int);
    let mut out: Vec<(String, String)> = Vec::new();
    let mut i: usize = 0;
    while i < m
        invariant
            m == pat@.len(),
            total == path@.len(),
            start + m <= total,
            i <= m,
            win == path_view(path@).subrange(start as int, start as int + m as int),
            forall|j: int| 0 <= j < i ==> seg_matches(#[trigger] pat@[j], win[j]),
            params_view(out@) + spec_params(pat@, win, i as int) == spec_params(pat@, win, 0),
        decreases m - i,
    {
        proof {
            assert(win[i as int] == path@[start as int + i as int]@);
        }
        match &pat[i] {
            Seg::Lit(l) => {
                if !(*l == path[start + i]) {
                    assert(!seg_matches(pat@[i as int], win[i as int]));
                    return None;
                }
            },
            Seg::Param(n) => {
                let ghost pre = out@;
                out.push((n.clone(), path[start + i].clone()));
                proof {
                    assert(params_view(out@) =~= params_view(pre) + seq![
                        (n@, path@[start as int + i as int]@),
                    ]);
                    assert(params_view(pre) + (seq![(n@, win[i as int])] + spec_params(
                        pat@,
                        win,
                        i as int + 1,
                    )) =~= params_view(out@) + spec_params(pat@, win, i as int + 1));
                }
            },
        }
        i = i + 1;
    }
    proof {
        assert(spec_params(pat@, win, m as int) =~= Seq::<(Seq<char>, Seq<char>)>::empty());
        assert(params_view(out@) + Seq::<(Seq<char>, Seq<char>)>::empty() =~= params_view(out@));
    }
    Some(out)
}

/// Tries one entry against the whole path: the bound parameters, the
/// outlet view, and the entry's literal-segment score, exactly when the
/// entry matches.
fn try_entry(entry: &RouteEntry, path: &Vec<String>) -> (r: Option<
    (Vec<(String, String)>, Option<u64>, usize),
>)
    ensures
        r is Some <==> entry_matches(*entry, path_view(path@)),
        r matches Some(t) ==> {
            &&& matched_parts_ok(*entry, path_view(path@), t.0@, t.1)
            &&& t.2 as int == entry_score(*entry, path_view(path@))
        },
{
    let ghost pv = path_view(path@);
    let m = entry.pattern.len();
    if entry.children.len() == 0 {
        if path.len() == m {
            match match_at(&entry.pattern, path, 0) {
                Some(ps) => {
                    proof {
                        assert(pv.subrange(0, m as int) =~= pv);
                    }
                    let score = lit_segs(&entry.pattern);
                    Some((ps, None, score))
                },
                None => None,
            }
        } else {
            None
        }
    } else {
        if path.len() < m {
            None
        } else {
            match match_at(&entry.pattern, path, 0) {
                Some(pps) => {
                    match find_child(entry, path, pps) {
                        Some(triple) => {
                            let base = lit_segs(&entry.pattern);
                            proof {
                                assert(base + triple.2 <= path@.len());
                            }
                            Some((triple.0, triple.1, base + triple.2))
                        },
                        None => None,
                    }
                },
                None => None,
            }
        }
    }
}

/// Resolves `path` against the table: the most specific matching entry —
/// the one binding the most literal segments, the earlier on ties —
/// decides, its guard gates the outcome, and the matched views and
/// parameters are reported exactly.
pub fn resolve_route(entries: &Vec<RouteEntry>, path: &Vec<String>) -> (out: RouteOutcome)
    ensures
        ({
            let pv = path_view(path@);
            match best_upto(entries@, pv, entries@.len() as int) {
                None => out is NotFound,
                Some(e) => {
                    let entry = entries@[e];
                    match entry.guard {
                        Some(g) => {
                            &&& (g.state is Unresolved ==> out is Suspended)
                            &&& (g.state is Denied ==> (out matches RouteOutcome::Redirect(t)
                                && path_view(t@) == path_view(g.redirect@)))
                            &&& (g.state is Admitted ==> render_ok(entry, pv, out))
                        },
                        None => render_ok(entry, pv, out),
                    }
                },
            }
        }),
{
    let ghost pv = path_view(path@);
    let n = entries.len();
    let mut best: Option<(usize, Vec<(String, String)>, Option<u64>, usize)> = None;
    let mut e: usize = 0;
    while e < n
        invariant
            n == entries@.len(),
            e <= n,
            pv == path_view(path@),
            match best {
                None => best_upto(entries@, pv, e as int) is None,
                Some(b) => {
                    &&& (b.0 as int) < n
                    &&& best_upto(entries@, pv, e as int) == Some(b.0 as int)
                    &&& matched_parts_ok(entries@[b.0 as int], pv, b.1@, b.2)
                    &&& b.3 as int == entry_score(entries@[b.0 as int], pv)
                },
            },
        decreases n - e,
    {
        match try_entry(&entries[e], path) {
            Some(t) => {
                let replace = match &best {
                    None => true,
                    Some(b) => t.2 > b.3,
                };
                if replace {
                    best = Some((e, t.0, t.1, t.2));
                }
            },
            None => {},
        }
        proof {
            let prev = best_upto(entries@, pv, e as int);
            assert(best_upto(entries@, pv, e as int + 1) == (if !entry_matches(
                entries@[e as int],
                pv,
            ) {
                prev
            } else {
                match prev {
                    None => Some(e as int),
                    Some(j) => if entry_score(entries@[e as int], pv) > entry_score(
                        entries@[j],
                        pv,
                    ) {
                        Some(e as int)
                    } else {
                        Some(j)
                    },
                }
            }));
        }
        e = e + 1;
    }
    match best {
        Some(b) => {
            let idx = b.0;
            let params = b.1;
            let outlet = b.2;
            let entry = &entries[idx];
            match &entry.guard {
                Some(g) => match g.state {
                    GuardState::Unresolved => RouteOutcome::Suspended,
                    GuardState::Denied => {
                        let mut t: Vec<String> = Vec::new();
                        let mut k: usize = 0;
                        let gr = &g.redirect;
                        while k < gr.len()
                            invariant
                                k <= gr@.len(),
                                t@.len() == k,
                                forall|j: int| 0 <= j < k ==> (#[trigger] t@[j])@ == gr@[j]@,
                            decreases gr@.len() - k,
                        {
                            t.push(gr[k].clone());
                            k = k + 1;
                        }
                        proof {
                            assert(path_view(t@) =~= path_view(gr@));
                        }
                        RouteOutcome::Redirect(t)
                    },
                    GuardState::Admitted => RouteOutcome::Render {
                        view: entry.view,
                        outlet,
                        params,
                    },
                },
                None => RouteOutcome::Render { view: entry.view, outlet, params },
            }
        },
        None => RouteOutcome::NotFound,
    }
}

/// The outlet and parameters a matched entry yields: the first matching
/// child's view in the outlet (none when the remainder is empty and
/// unclaimed), and exactly the parameters the pattern binds, parent's
/// before the child's.
pub open spec fn matched_parts_ok(
    entry: RouteEntry,
    pv: Seq<Seq<char>>,
    params: Seq<(String, String)>,
    outlet: Option<u64>,
) -> bool {
    let plen = entry.pattern@.len() as int;
    let rest = pv.skip(plen);
    &&& (entry.children@.len() == 0 ==> outlet is None && params_view(params) == spec_params(
        entry.pattern@,
        pv,
        0,
    ))
    &&& (entry.children@.len() > 0 ==> {
        &&& (match first_child(entry.children@, rest, 0) {
            Some(c) => outlet == Some(entry.children@[c].view) && params_view(params)
                == spec_params(entry.pattern@, pv.subrange(0, plen), 0) + spec_params(
                entry.children@[c].pattern@,
                rest,
                0,
            ),
            None => outlet is None && params_view(params) == spec_params(
                entry.pattern@,
                pv.subrange(0, plen),
                0,
            ),
        })
    })
}

/// What a correct render outcome for a matched, admitted entry holds.
pub open spec fn render_ok(entry: RouteEntry, pv: Seq<Seq<char>>, out: RouteOutcome) -> bool {
    &&& out matches RouteOutcome::Render { view, outlet, params }
    &&& view == entry.view
    &&& matched_parts_ok(entry, pv, params@, outlet)
}

/// Finds the first child of `entry` matching the path remainder, handing
/// back the combined parameters, the outlet view, and the child pattern's
/// literal count; `None` when the entry does not match at all.
fn find_child(entry: &RouteEntry, path: &Vec<String>, parent_params: Vec<(String, String)>) -> (r:
    Option<(Vec<(String, String)>, Option<u64>, usize)>)
    requires
        entry.children@.len() > 0,
        entry.pattern@.len() <= path@.len(),
        segs_match(
            entry.pattern@,
            path_view(path@).subrange(0, entry.pattern@.len() as int),
        ),
        params_view(parent_params@) == spec_params(
            entry.pattern@,
            path_view(path@).subrange(0, entry.pattern@.len() as int),
            0,
        ),
    ensures
        ({
            let pv = path_view(path@);
            let plen = entry.pattern@.len() as int;
            let rest = pv.skip(plen);
            match first_child(entry.children@, rest, 0) {
                Some(c) => r matches Some(pr) && pr.1 == Some(entry.children@[c].view)
                    && params_view(pr.0@) == spec_params(entry.pattern@, pv.subrange(0, plen), 0)
                    + spec_params(entry.children@[c].pattern@, rest, 0)
                    && pr.2 as int == lit_count(entry.children@[c].pattern@)
                    && pr.2 as int <= pv.len() - plen,
                None => if pv.len() == plen {
                    r matches Some(pr) && pr.1 is None && pr.2 == 0 && params_view(pr.0@)
                        == spec_params(entry.pattern@, pv.subrange(0, plen), 0)
                } else {
                    r is None
                },
            }
        }),
{
    let plen = entry.pattern.len();
    let ghost pv = path_view(path@);
    let ghost rest = pv.skip(plen as int);
    let nc = entry.children.len();
    let mut found: Option<usize> = None;
    let mut c: usize = 0;
    while c < nc
        invariant_except_break
            c <= nc,
            found is None,
            first_child(entry.children@, rest, 0) == first_child(entry.children@, rest, c as int),
        invariant
            nc == entry.children@.len(),
            plen == entry.pattern@.len(),
            plen <= path@.len(),
            pv == path_view(path@),
            rest == pv.skip(plen as int),
        ensures
            match found {
                Some(f) => {
                    &&& (f as int) < nc
                    &&& first_child(entry.children@, rest, 0) == Some(f as int)
                    &&& segs_match(entry.children@[f as int].pattern@, rest)
                },
                None => first_child(entry.children@, rest, 0) is None,
            },
        decreases nc - c,
    {
        let child = &entry.children[c];
        if path.len() - plen == child.pattern.len() {
            match match_at(&child.pattern, path, plen) {
                Some(_probe) => {
                    proof {
                        assert(pv.subrange(
                            plen as int,
                            plen as int + child.pattern@.len() as int,
                        ) =~= rest);
                        assert(segs_match(entry.children@[c as int].pattern@, rest));
                        assert(first_child(entry.children@, rest, c as int) == Some(c as int));
                    }
                    found = Some(c);
                    break;
                },
                None => {},
            }
        } else {
            proof {
                assert(!segs_match(entry.children@[c as int].pattern@, rest));
            }
        }
        c = c + 1;
    }
    match found {
        Some(f) => {
            let child = &entry.children[f];
            proof {
                assert(entry.children@[f as int].pattern@.len() == rest.len());
                assert(pv.subrange(plen as int, plen as int + child.pattern@.len() as int)
                    =~= rest);
            }
            let child_lits = lit_segs(&child.pattern);
            match match_at(&child.pattern, path, plen) {
                Some(cps) => {
                    let mut combined = parent_params;
                    let ghost base = combined@;
                    let ghost cv = cps@;
                    let mut tail = cps;
                    combined.append(&mut tail);
                    proof {
                        assert(combined@ == base + cv);
                        assert(params_view(combined@) =~= params_view(base) + params_view(cv));
                        assert(params_view(cv) == spec_params(
                            entry.children@[f as int].pattern@,
                            rest,
                            0,
                        ));
                        assert(params_view(combined@) == spec_params(
                            entry.pattern@,
                            pv.subrange(0, plen as int),
                            0,
                        ) + spec_params(entry.children@[f as int].pattern@, rest, 0));
                    }
                    Some((combined, Some(child.view), child_lits))
                },
                None => {
                    proof {
                        assert(false);
                    }
                    None
                },
            }
        },
        None => {
            if path.len() == plen {
                proof {
                    assert(params_view(parent_params@) + Seq::<(Seq<char>, Seq<char>)>::empty()
                        =~= params_view(parent_params@));
                }
                Some((parent_params, None, 0))
            } else {
                None
            }
        },
    }
}

} // verus!
