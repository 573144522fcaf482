use authkit::session::SessionStore;

#[test]
fn login_establishes_a_session() {
    let mut store = SessionStore::new();
    let sid = store.login(String::from("u-1"));
    assert_eq!(store.current_user(sid), Some(String::from("u-1")));
}

#[test]
fn anonymous_session_id_is_rejected() {
    let store = SessionStore::new();
    assert_eq!(store.current_user(0), None);
    assert_eq!(store.current_user(42), None);
}

#[test]
fn logout_destroys_the_session_and_replay_is_rejected() {
    // Logout followed by a request to a protected route: the session no
    // longer exists in the store, so replaying the very same session
    // cookie value is rejected.
    let mut store = SessionStore::new();
    let sid = store.login(String::from("u-1"));
    assert!(store.current_user(sid).is_some());
    store.logout(sid);
    assert_eq!(store.current_user(sid), None);
    assert_eq!(store.current_user(sid), None);
}

#[test]
fn logout_leaves_other_sessions_alone() {
    let mut store = SessionStore::new();
    let sid_a = store.login(String::from("u-a"));
    let sid_b = store.login(String::from("u-b"));
    assert_ne!(sid_a, sid_b);
    store.logout(sid_a);
    assert_eq!(store.current_user(sid_a), None);
    assert_eq!(store.current_user(sid_b), Some(String::from("u-b")));
}

#[test]
fn fresh_session_ids_do_not_collide() {
    let mut store = SessionStore::new();
    let first = store.login(String::from("u-1"));
    store.logout(first);
    let second = store.login(String::from("u-2"));
    assert_ne!(first, second);
    assert_eq!(store.current_user(first), None);
    assert_eq!(store.current_user(second), Some(String::from("u-2")));
}
