use hackernews::demo::demo_routes;
use hackernews::demo::VIEW_STORIES;
use hackernews::demo::VIEW_STORY;
use hackernews::demo::VIEW_TESTING;
use hackernews::demo::VIEW_TESTING_INDEX;
use hackernews::demo::VIEW_USER;
use hackernews::router::resolve_route;
use hackernews::router::GuardState;
use hackernews::router::RouteEntry;
use hackernews::router::RouteOutcome;
use hackernews::router::Seg;

fn path(parts: &[&str]) -> Vec<String> {
    parts.iter().map(|p| p.to_string()).collect()
}

fn expect_render(out: RouteOutcome) -> (u64, Option<u64>, Vec<(String, String)>) {
    match out {
        RouteOutcome::Render { view, outlet, params } => (view, outlet, params),
        _ => panic!("expected a rendered view"),
    }
}

#[test]
fn user_path_binds_id_parameter() {
    let table = demo_routes(GuardState::Unresolved);
    let (view, outlet, params) = expect_render(resolve_route(&table, &path(&["users", "42"])));
    assert_eq!(view, VIEW_USER);
    assert!(outlet.is_none());
    assert_eq!(params, vec![("id".to_string(), "42".to_string())]);
}

#[test]
fn unknown_path_yields_not_found_fallback() {
    let table = demo_routes(GuardState::Unresolved);
    assert!(matches!(resolve_route(&table, &path(&["unknown"])), RouteOutcome::NotFound));
    assert!(matches!(
        resolve_route(&table, &path(&["users", "42", "extra"])),
        RouteOutcome::NotFound
    ));
}

#[test]
fn story_routes_match_most_specific_first() {
    let table = demo_routes(GuardState::Unresolved);
    let (view, _, params) = expect_render(resolve_route(&table, &path(&["stories", "7"])));
    assert_eq!(view, VIEW_STORY);
    assert_eq!(params, vec![("id".to_string(), "7".to_string())]);
    let (view2, _, params2) = expect_render(resolve_route(&table, &path(&["stories"])));
    assert_eq!(view2, VIEW_STORIES);
    assert!(params2.is_empty());
}

#[test]
fn index_route_matches_empty_path() {
    let table = demo_routes(GuardState::Unresolved);
    let (view, outlet, params) = expect_render(resolve_route(&table, &path(&[])));
    assert_eq!(view, VIEW_STORIES);
    assert!(outlet.is_none());
    assert!(params.is_empty());
}

#[test]
fn unresolved_guard_suspends_without_constructing_view() {
    let table = demo_routes(GuardState::Unresolved);
    // While the permission is unresolved nothing of the protected subtree
    // is rendered — no flash of protected content.
    assert!(matches!(resolve_route(&table, &path(&["testing"])), RouteOutcome::Suspended));
}

#[test]
fn denied_guard_redirects_and_never_renders_protected_view() {
    // The condition resolved to false (after however long it took): the
    // navigation lands on the redirect target, and the protected view id
    // never appears in any outcome along the way.
    let mut constructed: Vec<u64> = Vec::new();
    let state = GuardState::Unresolved.step(Some(Ok(false)));
    assert_eq!(state, GuardState::Denied);
    let table = demo_routes(state);
    let redirect_target = match resolve_route(&table, &path(&["testing"])) {
        RouteOutcome::Redirect(t) => t,
        RouteOutcome::Render { view, .. } => {
            constructed.push(view);
            panic!("protected view constructed despite denial")
        },
        _ => panic!("expected a redirect"),
    };
    // The guard's configured target is the root path.
    assert!(redirect_target.is_empty());
    let (view, _, _) = expect_render(resolve_route(&table, &redirect_target));
    assert_eq!(view, VIEW_STORIES);
    assert!(constructed.is_empty());
}

#[test]
fn admitted_guard_renders_subtree_with_index_outlet() {
    let state = GuardState::Unresolved.step(Some(Ok(true)));
    assert_eq!(state, GuardState::Admitted);
    let table = demo_routes(state);
    let (view, outlet, params) = expect_render(resolve_route(&table, &path(&["testing"])));
    assert_eq!(view, VIEW_TESTING);
    assert_eq!(outlet, Some(VIEW_TESTING_INDEX));
    assert!(params.is_empty());
}

#[test]
fn guard_condition_error_fails_closed() {
    assert_eq!(GuardState::Unresolved.step(Some(Err(3))), GuardState::Denied);
    assert_eq!(GuardState::Unresolved.step(None), GuardState::Unresolved);
    // Resolution is final.
    assert_eq!(GuardState::Admitted.step(Some(Ok(false))), GuardState::Admitted);
    assert_eq!(GuardState::Denied.step(Some(Ok(true))), GuardState::Denied);
}

#[test]
fn literal_segment_beats_parameter_regardless_of_order() {
    // The parameter route stands first in the table; the literal route is
    // still more specific and wins the path it spells out.
    let param_route = RouteEntry {
        pattern: vec![
            Seg::Lit("stories".to_string()),
            Seg::Param("id".to_string()),
        ],
        view: 10,
        guard: None,
        children: Vec::new(),
    };
    let literal_route = RouteEntry {
        pattern: vec![
            Seg::Lit("stories".to_string()),
            Seg::Lit("new".to_string()),
        ],
        view: 11,
        guard: None,
        children: Vec::new(),
    };
    let table = vec![param_route, literal_route];
    let (view, _, params) = expect_render(resolve_route(&table, &path(&["stories", "new"])));
    assert_eq!(view, 11);
    assert!(params.is_empty());
    let (view2, _, params2) = expect_render(resolve_route(&table, &path(&["stories", "7"])));
    assert_eq!(view2, 10);
    assert_eq!(params2, vec![("id".to_string(), "7".to_string())]);
}

#[test]
fn unmatched_nested_remainder_is_no_match() {
    let table = demo_routes(GuardState::Admitted);
    assert!(matches!(
        resolve_route(&table, &path(&["testing", "deeper"])),
        RouteOutcome::NotFound
    ));
}
