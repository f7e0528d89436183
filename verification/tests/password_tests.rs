use valutx::errors::HashError;
use valutx::hashing::{hash_password, verify_password};
use valutx::users::{User, UserStore};

#[test]
fn test_hash_verifies_own_password_only() {
    let hash = hash_password("correct horse battery staple").expect("hash");
    assert_eq!(verify_password("correct horse battery staple", &hash), Ok(true));
    assert_eq!(verify_password("correct horse battery stapl", &hash), Ok(false));
    assert_eq!(verify_password("", &hash), Ok(false));
}

#[test]
fn test_hash_is_salted_and_self_describing() {
    let h1 = hash_password("swordfish").expect("hash");
    let h2 = hash_password("swordfish").expect("hash");
    assert_ne!(h1, h2, "two hashes of one password shared a salt");
    assert_eq!(verify_password("swordfish", &h1), Ok(true));
    assert_eq!(verify_password("swordfish", &h2), Ok(true));
    assert_ne!(h1, "swordfish");
    assert!(h1.starts_with("$argon2"));
}

#[test]
fn test_malformed_hash_is_distinct_from_mismatch() {
    assert_eq!(verify_password("pw", "not a hash"), Err(HashError::MalformedHash));
    assert_eq!(verify_password("pw", ""), Err(HashError::MalformedHash));
}

#[test]
fn test_authenticate_user() {
    let mut store = UserStore::new();
    store
        .register_user(
            &"alice".to_string(),
            &"wonderland".to_string(),
            &"device-1".to_string(),
        )
        .expect("register");

    assert_eq!(
        store.authenticate_user(&"alice".to_string(), &"wonderland".to_string()),
        Ok(true)
    );
    assert_eq!(
        store.authenticate_user(&"alice".to_string(), &"through the glass".to_string()),
        Ok(false)
    );
    // An absent user is observably the same as a wrong password.
    assert_eq!(
        store.authenticate_user(&"bob".to_string(), &"wonderland".to_string()),
        Ok(false)
    );
}

#[test]
fn test_authenticate_user_malformed_stored_hash() {
    let store = UserStore {
        users: vec![User {
            username: "mallory".to_string(),
            password_hash: "plainly broken".to_string(),
            device_id: "device-9".to_string(),
        }],
    };
    assert_eq!(
        store.authenticate_user(&"mallory".to_string(), &"anything".to_string()),
        Err(HashError::MalformedHash)
    );
}
