use valutx::ceremony::{derive_rp_origin, CeremonyState, CeremonyStore};
use valutx::errors::CeremonyError;

#[test]
fn test_derive_rp_origin_strips_port() {
    let origin = derive_rp_origin(false, b"localhost:8080").expect("derive");
    assert_eq!(origin, "http://localhost");
    let origin = derive_rp_origin(true, b"vault.example.com:443").expect("derive");
    assert_eq!(origin, "https://vault.example.com");
}

#[test]
fn test_derive_rp_origin_rejects_bad_hosts() {
    // No port separator: the host cannot be split.
    assert_eq!(derive_rp_origin(false, b"localhost"), Err(CeremonyError::BadOrigin));
    // Nothing before the separator: "http://" is no URL.
    assert_eq!(derive_rp_origin(false, b":8080"), Err(CeremonyError::BadOrigin));
    assert_eq!(derive_rp_origin(true, b""), Err(CeremonyError::BadOrigin));
}

fn start_one(store: &mut CeremonyStore, now: u64, ttl: u64) -> (String, String) {
    store
        .start_registration(
            &"alice".to_string(),
            &"localhost".to_string(),
            &"http://localhost".to_string(),
            now,
            ttl,
        )
        .expect("start")
}

#[test]
fn test_start_registration_stores_ceremony() {
    let mut store = CeremonyStore::new();
    let (ceremony_id, challenge) = start_one(&mut store, 1_000, 300);
    assert_eq!(ceremony_id.len(), 36);
    assert!(challenge.contains("challenge"));
    assert_eq!(store.ceremonies.len(), 1);
    assert_eq!(store.ceremonies[0].ceremony_id, ceremony_id);
    assert_eq!(store.ceremonies[0].user_id, "alice");
    assert_eq!(store.ceremonies[0].origin, "http://localhost");
    assert_eq!(store.ceremonies[0].expires, 1_300);
}

#[test]
fn test_concurrent_ceremonies_do_not_share_state() {
    let mut store = CeremonyStore::new();
    let (first, _) = start_one(&mut store, 1_000, 300);
    let (second, _) = start_one(&mut store, 1_000, 300);
    assert_ne!(first, second, "two ceremonies shared an id");
    assert_eq!(store.ceremonies.len(), 2);
}

#[test]
fn test_start_registration_rejects_bad_origin() {
    let mut store = CeremonyStore::new();
    let r = store.start_registration(
        &"alice".to_string(),
        &"localhost".to_string(),
        &"not a url".to_string(),
        1_000,
        300,
    );
    assert_eq!(r, Err(CeremonyError::BadOrigin));
    assert_eq!(store.ceremonies.len(), 0);

    // The relying-party id must be the origin's effective domain.
    let r = store.start_registration(
        &"alice".to_string(),
        &"evil.example".to_string(),
        &"http://localhost".to_string(),
        1_000,
        300,
    );
    assert_eq!(r, Err(CeremonyError::CeremonyFailed));
    assert_eq!(store.ceremonies.len(), 0);
}

#[test]
fn test_finish_unknown_ceremony_fails() {
    let mut store = CeremonyStore::new();
    let r = store.finish_registration(
        &"no-such-ceremony".to_string(),
        &"localhost".to_string(),
        &"http://localhost".to_string(),
        &"{}".to_string(),
        1_000,
    );
    assert_eq!(r, Err(CeremonyError::CeremonyFailed));
}

#[test]
fn test_finish_with_origin_mismatch_fails_and_consumes() {
    let mut store = CeremonyStore::new();
    let (ceremony_id, _) = start_one(&mut store, 1_000, 300);

    // A cross-origin attempt is a ceremony failure, never downgraded.
    let r = store.finish_registration(
        &ceremony_id,
        &"localhost".to_string(),
        &"http://elsewhere.example".to_string(),
        &"{}".to_string(),
        1_100,
    );
    assert_eq!(r, Err(CeremonyError::CeremonyFailed));
    assert_eq!(store.ceremonies.len(), 0, "the attempt spends the ceremony");

    // The state is single use: the right origin cannot finish it anymore.
    let r = store.finish_registration(
        &ceremony_id,
        &"localhost".to_string(),
        &"http://localhost".to_string(),
        &"{}".to_string(),
        1_100,
    );
    assert_eq!(r, Err(CeremonyError::CeremonyFailed));
}

#[test]
fn test_finish_after_expiry_fails() {
    let mut store = CeremonyStore::new();
    let (ceremony_id, _) = start_one(&mut store, 1_000, 300);
    let r = store.finish_registration(
        &ceremony_id,
        &"localhost".to_string(),
        &"http://localhost".to_string(),
        &"{}".to_string(),
        1_300,
    );
    assert_eq!(r, Err(CeremonyError::CeremonyFailed));
    assert_eq!(store.ceremonies.len(), 0);
}

#[test]
fn test_finish_with_unparsable_credential_is_bad_data() {
    let mut store = CeremonyStore::new();
    let (ceremony_id, _) = start_one(&mut store, 1_000, 300);
    let r = store.finish_registration(
        &ceremony_id,
        &"localhost".to_string(),
        &"http://localhost".to_string(),
        &"certainly not a credential".to_string(),
        1_100,
    );
    assert_eq!(r, Err(CeremonyError::BadCeremonyData));
}

#[test]
fn test_forged_credential_fails_cryptographically() {
    let mut store = CeremonyStore::new();
    let (ceremony_id, _) = start_one(&mut store, 1_000, 300);
    // The forged credential parses, so the refusal is the cryptographic
    // verification failing — never an acceptance by default.
    let r = store.finish_registration(
        &ceremony_id,
        &"localhost".to_string(),
        &"http://localhost".to_string(),
        &forged_credential(),
        1_100,
    );
    assert_eq!(r, Err(CeremonyError::CeremonyFailed));
    assert_eq!(store.ceremonies.len(), 0);
}

// A structurally complete but unverifiable registration credential: it
// parses, so any refusal must come from a later check.
fn forged_credential() -> String {
    let mut forged = String::new();
    forged.push_str("{\"id\":\"AAAA\",\"rawId\":\"AAAA\",\"type\":\"public-key\",");
    forged.push_str("\"extensions\":{},\"response\":{");
    forged.push_str("\"attestationObject\":\"AAAA\",\"clientDataJSON\":\"AAAA\"}}");
    forged
}

#[test]
fn test_corrupted_stored_state_is_ceremony_failure() {
    let mut store = CeremonyStore {
        ceremonies: vec![CeremonyState {
            ceremony_id: "ceremony-1".to_string(),
            user_id: "alice".to_string(),
            origin: "http://localhost".to_string(),
            state_blob: "not the stored state".to_string(),
            expires: 2_000,
        }],
    };
    let r = store.finish_registration(
        &"ceremony-1".to_string(),
        &"localhost".to_string(),
        &"http://localhost".to_string(),
        &forged_credential(),
        1_000,
    );
    assert_eq!(r, Err(CeremonyError::CeremonyFailed));
    assert_eq!(store.ceremonies.len(), 0);
}
