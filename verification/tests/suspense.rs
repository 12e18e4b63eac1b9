use hackernews::resource::FetchMode;
use hackernews::resource::ResourceManager;
use hackernews::resource::ResourceState;
use hackernews::suspense::BoundaryStack;
use hackernews::suspense::Phase;
use hackernews::suspense::SuspenseScope;

#[test]
fn blocking_resource_gates_boundary_until_first_resolution() {
    let mut mgr = ResourceManager::new();
    let rid = mgr.create(FetchMode::Blocking, 0);
    let t = mgr.observe_key(rid, 1).expect("dispatch");
    let scope = SuspenseScope { registered: vec![rid] };
    // Before the first resolution a blocking resource emits no state at all.
    assert_eq!(mgr.observable(rid), None);
    assert_eq!(scope.resolve(&mgr), Phase::Fallback);
    // The blocking first-paint output never contains a fallback phase.
    assert!(scope.blocking_output(&mgr).is_empty());
    mgr.complete(rid, t, Ok(11));
    assert_eq!(mgr.observable(rid), Some(ResourceState::Ready(11)));
    assert_eq!(scope.resolve(&mgr), Phase::Content);
    assert_eq!(scope.blocking_output(&mgr), vec![Phase::Content]);
}

#[test]
fn streamed_boundary_shows_fallback_then_content() {
    let mut mgr = ResourceManager::new();
    let rid = mgr.create(FetchMode::Normal, 0);
    let t = mgr.observe_key(rid, 1).expect("dispatch");
    let scope = SuspenseScope { registered: vec![rid] };
    assert_eq!(scope.streamed_output(&mgr), vec![Phase::Fallback]);
    mgr.complete(rid, t, Ok(1));
    assert_eq!(scope.streamed_output(&mgr), vec![Phase::Fallback, Phase::Content]);
}

#[test]
fn errored_resource_still_resolves_boundary() {
    let mut mgr = ResourceManager::new();
    let rid = mgr.create(FetchMode::Normal, 0);
    let t = mgr.observe_key(rid, 1).expect("dispatch");
    mgr.complete(rid, t, Err(7));
    let scope = SuspenseScope { registered: vec![rid] };
    assert_eq!(scope.resolve(&mgr), Phase::Content);
}

#[test]
fn inner_boundary_claims_resources_read_within_it() {
    let mut stack = BoundaryStack::new();
    stack.enter(); // outer
    stack.register(0);
    stack.enter(); // inner
    stack.register(1);
    stack.register(2);
    let inner = stack.exit().expect("inner open");
    assert_eq!(inner.registered, vec![1, 2]);
    stack.register(3);
    let outer = stack.exit().expect("outer open");
    // The outer boundary never saw the inner boundary's resources.
    assert_eq!(outer.registered, vec![0, 3]);
    assert!(stack.exit().is_none());
}

#[test]
fn empty_boundary_is_immediately_content() {
    let mgr = ResourceManager::new();
    let scope = SuspenseScope { registered: vec![] };
    assert_eq!(scope.resolve(&mgr), Phase::Content);
}
