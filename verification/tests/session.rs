use todo_web_app::session::{auth, SessionId, SessionStore, UserSessionData};
use todo_web_app::utilities::FlashMessageLevel;

#[test]
fn rotation_invalidates_prior_identifier() {
    let mut store = SessionStore::new();
    let id = store.create(1000).expect("create should succeed");
    store
        .set_identity(
            id,
            UserSessionData { user_id: 7, username: String::from("alice") },
        )
        .expect("session exists");

    let id2 = store.rotate(id).expect("rotate should succeed");
    assert_ne!(id, id2);

    // The old identifier reads as if no session existed.
    assert!(!store.contains(id));
    assert!(auth(&store, Some(id)).is_err());

    // The new identifier still reads the previously stored value.
    let data = auth(&store, Some(id2)).expect("new identifier must be valid");
    assert_eq!(data.user_id(), 7);
    assert_eq!(data.username(), "alice");
}

#[test]
fn flash_read_once_then_absent() {
    let mut store = SessionStore::new();
    let id = store.create(1000).expect("create should succeed");
    store
        .set_msg(id, FlashMessageLevel::Error, String::from("Incorrect Credentials"))
        .expect("session exists");

    let first = store.get_msgs(id);
    assert_eq!(first.len(), 1);
    assert!(matches!(first[0].level, FlashMessageLevel::Error));
    assert_eq!(first[0].msg, "Incorrect Credentials");

    let second = store.get_msgs(id);
    assert!(second.is_empty());
}

#[test]
fn delete_destroys_session() {
    let mut store = SessionStore::new();
    let id = store.create(1000).expect("create should succeed");
    assert!(store.contains(id));
    store.delete(id);
    assert!(!store.contains(id));
    // Deleting an unknown identifier is harmless.
    store.delete(id);
}

#[test]
fn created_identifiers_are_distinct() {
    let mut store = SessionStore::new();
    let a = store.create(10).expect("create should succeed");
    let b = store.create(10).expect("create should succeed");
    let c = store.create(10).expect("create should succeed");
    assert_ne!(a, b);
    assert_ne!(a, c);
    assert_ne!(b, c);
}

#[test]
fn expiry_purges_only_dead_sessions() {
    let mut store = SessionStore::new();
    let dead = store.create(100).expect("create should succeed");
    let alive = store.create(200).expect("create should succeed");
    store.expire_before(150);
    assert!(!store.contains(dead));
    assert!(store.contains(alive));
}

#[test]
fn guard_rejects_unknown_and_logged_out_sessions() {
    let mut store = SessionStore::new();
    // No cookie at all.
    assert!(auth(&store, None).is_err());
    // A forged identifier.
    assert!(auth(&store, Some(SessionId { serial: 99, token: 1234 })).is_err());
    // A session nobody logged in on.
    let id = store.create(1000).expect("create should succeed");
    assert!(auth(&store, Some(id)).is_err());
}
