//! The news-listing demo wired onto the reactive core: its route table, the
//! permission endpoint's decision, the synthetic bounded data endpoint, and
//! the slider island's state.

use vstd::prelude::*;
use crate::router::GuardConfig;
use crate::router::GuardState;
use crate::router::ChildRoute;
use crate::router::RouteEntry;
use crate::router::Seg;

verus! {

/// View identifiers of the demo's route table.
pub const VIEW_STORIES: u64 = 1;

pub const VIEW_STORY: u64 = 2;

pub const VIEW_USER: u64 = 3;

pub const VIEW_TESTING: u64 = 4;

pub const VIEW_TESTING_INDEX: u64 = 5;

/// The demo's permission check: this deployment grants access to everyone,
/// so the guard's condition resolves to `true`.
pub fn check_protection() -> (r: bool)
    ensures
        r,
{
    true
}

/// The synthetic bounded data endpoint: the numbers below `max`, in order.
pub fn get_data(max: u8) -> (r: Vec<u8>)
    ensures
        r@.len() == max as int,
        forall|i: int| 0 <= i < max as int ==> r@[i] == i,
{
    let mut out: Vec<u8> = Vec::new();
    let mut i: u8 = 0;
    while i < max
        invariant
            i <= max,
            out@.len() == i as int,
            forall|j: int| 0 <= j < i as int ==> out@[j] == j,
        decreases max - i,
    {
        out.push(i);
        i = i + 1;
    }
    out
}

/// The slider island's two positions.
#[derive(Clone, Copy, Debug, PartialEq, Eq, Structural)]
pub enum SliderPosition {
    On,
    Off,
}

impl SliderPosition {
    /// The switch's change handler: each toggle flips the position.
    pub fn toggle(self) -> (r: SliderPosition)
        ensures
            self is On ==> r is Off,
            self is Off ==> r is On,
    {
        match self {
            SliderPosition::On => SliderPosition::Off,
            SliderPosition::Off => SliderPosition::On,
        }
    }

    /// The text the display island shows for this position.
    pub fn label(self) -> (r: String)
        ensures
            self is On ==> r@ == "On"@,
            self is Off ==> r@ == "Off"@,
    {
        match self {
            SliderPosition::On => "On".to_owned(),
            SliderPosition::Off => "Off".to_owned(),
        }
    }
}

/// The demo's route table, most specific first: user and story detail
/// pages, the story listing, the guarded testing subtree with its index
/// child, and the index route showing the stories again. The guard starts
/// in the given state and redirects a denied navigation to the root path.
pub fn demo_routes(guard: GuardState) -> (r: Vec<RouteEntry>)
    ensures
        r@.len() == 5,
        r@[0].view == VIEW_USER && r@[0].guard is None && r@[0].children@.len() == 0,
        r@[0].pattern@.len() == 2 && (r@[0].pattern@[0] matches Seg::Lit(l) && l@ == "users"@)
            && (r@[0].pattern@[1] matches Seg::Param(p) && p@ == "id"@),
        r@[1].view == VIEW_STORY && r@[1].guard is None && r@[1].children@.len() == 0,
        r@[1].pattern@.len() == 2 && (r@[1].pattern@[0] matches Seg::Lit(l) && l@ == "stories"@)
            && (r@[1].pattern@[1] matches Seg::Param(p) && p@ == "id"@),
        r@[2].view == VIEW_STORIES && r@[2].guard is None && r@[2].children@.len() == 0,
        r@[2].pattern@.len() == 1 && (r@[2].pattern@[0] matches Seg::Lit(l) && l@ == "stories"@),
        r@[3].view == VIEW_TESTING && r@[3].children@.len() == 1,
        r@[3].pattern@.len() == 1 && (r@[3].pattern@[0] matches Seg::Lit(l) && l@ == "testing"@),
        (r@[3].guard matches Some(g) && g.state == guard && g.redirect@.len() == 0),
        r@[3].children@[0].pattern@.len() == 0 && r@[3].children@[0].view == VIEW_TESTING_INDEX,
        r@[4].view == VIEW_STORIES && r@[4].guard is None && r@[4].children@.len() == 0,
        r@[4].pattern@.len() == 0,
{
    let mut r: Vec<RouteEntry> = Vec::new();
    let mut pat_user: Vec<Seg> = Vec::new();
    pat_user.push(Seg::Lit("users".to_owned()));
    pat_user.push(Seg::Param("id".to_owned()));
    r.push(RouteEntry { pattern: pat_user, view: VIEW_USER, guard: None, children: Vec::new() });
    let mut pat_story: Vec<Seg> = Vec::new();
    pat_story.push(Seg::Lit("stories".to_owned()));
    pat_story.push(Seg::Param("id".to_owned()));
    r.push(RouteEntry { pattern: pat_story, view: VIEW_STORY, guard: None, children: Vec::new() });
    let mut pat_stories: Vec<Seg> = Vec::new();
    pat_stories.push(Seg::Lit("stories".to_owned()));
    r.push(
        RouteEntry { pattern: pat_stories, view: VIEW_STORIES, guard: None, children: Vec::new() },
    );
    let mut pat_testing: Vec<Seg> = Vec::new();
    pat_testing.push(Seg::Lit("testing".to_owned()));
    let mut testing_children: Vec<ChildRoute> = Vec::new();
    testing_children.push(ChildRoute { pattern: Vec::new(), view: VIEW_TESTING_INDEX });
    r.push(
        RouteEntry {
            pattern: pat_testing,
            view: VIEW_TESTING,
            guard: Some(GuardConfig { state: guard, redirect: Vec::new() }),
            children: testing_children,
        },
    );
    r.push(
        RouteEntry { pattern: Vec::new(), view: VIEW_STORIES, guard: None, children: Vec::new() },
    );
    r
}

} // verus!
