use todo_web_app::password::{hash_password, verify_password};

#[test]
fn hash_then_verify_round_trip() {
    let hash = hash_password("secret1").expect("hashing should succeed");
    assert!(verify_password("secret1", &hash));
}

#[test]
fn wrong_password_fails_verification() {
    let hash = hash_password("secret1").expect("hashing should succeed");
    assert!(!verify_password("secret2", &hash));
    assert!(!verify_password("", &hash));
}

#[test]
fn two_hashes_of_same_password_differ_but_both_verify() {
    let h1 = hash_password("secret1").expect("hashing should succeed");
    let h2 = hash_password("secret1").expect("hashing should succeed");
    assert_ne!(h1, h2);
    assert!(verify_password("secret1", &h1));
    assert!(verify_password("secret1", &h2));
}

#[test]
fn malformed_stored_hash_verifies_nothing() {
    assert!(!verify_password("secret1", ""));
    assert!(!verify_password("secret1", "not a phc string"));
    assert!(!verify_password("secret1", "$argon2id$v=19$garbage"));
}

#[test]
fn empty_password_round_trip() {
    let hash = hash_password("").expect("hashing should succeed");
    assert!(verify_password("", &hash));
    assert!(!verify_password("x", &hash));
}
