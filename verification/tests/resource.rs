use hackernews::resource::AsyncResource;
use hackernews::resource::Completion;
use hackernews::resource::FetchMode;
use hackernews::resource::ResourceManager;
use hackernews::resource::ResourceState;

#[test]
fn last_key_wins_over_stale_completion() {
    let mut r = AsyncResource::new(FetchMode::Normal, 0);
    let t1 = r.observe_key(1).expect("first key dispatches");
    let t2 = r.observe_key(2).expect("second key dispatches");
    // The fetch for key 1 finishes late, after key 2 superseded it.
    let c1 = r.complete(t1, Ok(10));
    assert_eq!(c1, Completion::StaleDiscarded);
    assert_eq!(r.observable(), Some(ResourceState::Pending));
    let c2 = r.complete(t2, Ok(20));
    assert_eq!(c2, Completion::Applied);
    assert_eq!(r.observable(), Some(ResourceState::Ready(20)));
}

#[test]
fn out_of_order_completions_keep_last_key() {
    let mut r = AsyncResource::new(FetchMode::Normal, 0);
    let t1 = r.observe_key(1).expect("dispatch");
    let t2 = r.observe_key(2).expect("dispatch");
    let t3 = r.observe_key(3).expect("dispatch");
    assert_eq!(r.complete(t2, Ok(200)), Completion::StaleDiscarded);
    assert_eq!(r.complete(t3, Ok(300)), Completion::Applied);
    assert_eq!(r.complete(t1, Ok(100)), Completion::StaleDiscarded);
    assert_eq!(r.observable(), Some(ResourceState::Ready(300)));
}

#[test]
fn unchanged_key_dispatches_nothing() {
    let mut r = AsyncResource::new(FetchMode::Normal, 0);
    let t = r.observe_key(7).expect("dispatch");
    assert!(r.observe_key(7).is_none());
    assert_eq!(r.complete(t, Ok(1)), Completion::Applied);
    // Still the same key: the cached state stands, no refetch.
    assert!(r.observe_key(7).is_none());
    assert_eq!(r.observable(), Some(ResourceState::Ready(1)));
}

#[test]
fn failed_fetch_is_errored_state() {
    let mut r = AsyncResource::new(FetchMode::Normal, 0);
    let t = r.observe_key(1).expect("dispatch");
    assert_eq!(r.complete(t, Err(42)), Completion::Applied);
    assert_eq!(r.observable(), Some(ResourceState::Errored(42)));
}

#[test]
fn disposed_resource_never_mutates() {
    let mut r = AsyncResource::new(FetchMode::Normal, 3);
    let t = r.observe_key(1).expect("dispatch");
    r.dispose();
    // The probe: a completion arriving after teardown reports itself as
    // dropped and the state is untouched.
    assert_eq!(r.complete(t, Ok(99)), Completion::ScopeDisposed);
    assert_eq!(r.observable(), Some(ResourceState::Pending));
    // No new fetch can be dispatched from a dead resource either.
    assert!(r.observe_key(2).is_none());
}

#[test]
fn scope_teardown_disposes_only_owned_resources() {
    let mut mgr = ResourceManager::new();
    let a = mgr.create(FetchMode::Normal, 1);
    let b = mgr.create(FetchMode::Normal, 2);
    let ta = mgr.observe_key(a, 10).expect("dispatch");
    let tb = mgr.observe_key(b, 20).expect("dispatch");
    mgr.dispose_scope(1);
    assert_eq!(mgr.complete(a, ta, Ok(5)), Completion::ScopeDisposed);
    assert_eq!(mgr.observable(a), Some(ResourceState::Pending));
    assert_eq!(mgr.complete(b, tb, Ok(6)), Completion::Applied);
    assert_eq!(mgr.observable(b), Some(ResourceState::Ready(6)));
}
