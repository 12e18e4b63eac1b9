use hackernews::reactive::CellStore;
use hackernews::reactive::RxError;

#[test]
fn write_notifies_tracked_reader() {
    let mut st = CellStore::new();
    let cell = st.create_cell(0, 5).unwrap();
    let other = st.create_cell(0, 6).unwrap();
    let comp = st.create_computation(0).unwrap();
    st.begin_computation(comp).unwrap();
    assert_eq!(st.read(cell).unwrap(), 5);
    st.end_computation();
    let notified = st.write(cell, 7).unwrap();
    assert_eq!(notified, vec![comp]);
    assert_eq!(st.read(cell).unwrap(), 7);
    // A cell the computation never read notifies nothing.
    let notified_other = st.write(other, 1).unwrap();
    assert!(notified_other.is_empty());
}

#[test]
fn rerun_replaces_subscriptions() {
    let mut st = CellStore::new();
    let a = st.create_cell(0, 1).unwrap();
    let b = st.create_cell(0, 2).unwrap();
    let comp = st.create_computation(0).unwrap();
    st.begin_computation(comp).unwrap();
    st.read(a).unwrap();
    st.end_computation();
    assert_eq!(st.write(a, 10).unwrap(), vec![comp]);
    // The re-run reads only b: the old subscription to a is dropped, not
    // accumulated.
    st.begin_computation(comp).unwrap();
    st.read(b).unwrap();
    st.end_computation();
    assert!(st.write(a, 11).unwrap().is_empty());
    assert_eq!(st.write(b, 12).unwrap(), vec![comp]);
}

#[test]
fn untracked_write_still_notifies_existing_subscribers() {
    let mut st = CellStore::new();
    let cell = st.create_cell(0, 0).unwrap();
    let comp = st.create_computation(0).unwrap();
    st.begin_computation(comp).unwrap();
    st.read(cell).unwrap();
    st.end_computation();
    // Reading outside any computation tracks nothing.
    assert_eq!(st.read(cell).unwrap(), 0);
    assert_eq!(st.write(cell, 3).unwrap(), vec![comp]);
}

#[test]
fn use_after_dispose_fails() {
    let mut st = CellStore::new();
    let scope = st.create_scope(0).unwrap();
    let cell = st.create_cell(scope, 9).unwrap();
    st.dispose_scope(scope).unwrap();
    assert_eq!(st.read(cell), Err(RxError::UseAfterDispose));
    assert_eq!(st.write(cell, 1), Err(RxError::UseAfterDispose));
    assert_eq!(st.create_cell(scope, 0), Err(RxError::UseAfterDispose));
}

#[test]
fn disposing_a_scope_tears_down_descendants() {
    let mut st = CellStore::new();
    let child = st.create_scope(0).unwrap();
    let grandchild = st.create_scope(child).unwrap();
    let cell = st.create_cell(grandchild, 1).unwrap();
    st.dispose_scope(child).unwrap();
    assert_eq!(st.read(cell), Err(RxError::UseAfterDispose));
    // The root is untouched.
    let root_cell = st.create_cell(0, 2).unwrap();
    assert_eq!(st.read(root_cell).unwrap(), 2);
}

#[test]
fn context_flows_to_descendants_nearest_provider_first() {
    let mut st = CellStore::new();
    let child = st.create_scope(0).unwrap();
    let grandchild = st.create_scope(child).unwrap();
    st.provide_context(0, 77, 1000).unwrap();
    assert_eq!(st.expect_context(grandchild, 77), Ok(1000));
    // The nearer provider shadows the root's.
    st.provide_context(child, 77, 2000).unwrap();
    assert_eq!(st.expect_context(grandchild, 77), Ok(2000));
    assert_eq!(st.expect_context(0, 77), Ok(1000));
}

#[test]
fn missing_context_fails_loudly() {
    let mut st = CellStore::new();
    let child = st.create_scope(0).unwrap();
    assert_eq!(st.expect_context(child, 5), Err(RxError::MissingContext));
}
