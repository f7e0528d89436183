use valutx::devices::{Device, DeviceRecord, DeviceStore};
use valutx::errors::DeviceError;

fn unapproved_store(user: &str, device: &str) -> DeviceStore {
    DeviceStore {
        records: vec![DeviceRecord {
            user_id: user.to_string(),
            device_id: device.to_string(),
            approved: false,
            new_device_flag: false,
            expiration: 10_000,
        }],
    }
}

fn device(id: &str, expiration: u64) -> Device {
    Device { device_id: id.to_string(), expiration, user_id: "alice".to_string() }
}

#[test]
fn test_approve_without_preapprove_fails() {
    let mut store = unapproved_store("alice", "device-1");
    let r = store.approve_device(&"alice".to_string(), &device("device-1", 10_000));
    assert_eq!(r, Err(DeviceError::ApprovalNotEnabled));
    assert!(!store.is_trusted(&"alice".to_string(), &"device-1".to_string(), 100));
}

#[test]
fn test_preapprove_flags_only_that_user() {
    let mut store = unapproved_store("alice", "device-1");
    store.records.push(DeviceRecord {
        user_id: "bob".to_string(),
        device_id: "device-2".to_string(),
        approved: false,
        new_device_flag: false,
        expiration: 10_000,
    });
    store.preapprove_device(&"alice".to_string());
    assert!(store.records[0].new_device_flag);
    assert!(!store.records[1].new_device_flag);

    // An approve for the unflagged user still fails.
    let r = store.approve_device(&"bob".to_string(), &device("device-2", 10_000));
    assert_eq!(r, Err(DeviceError::ApprovalNotEnabled));
}

#[test]
fn test_preapprove_is_idempotent() {
    let mut store = unapproved_store("alice", "device-1");
    store.preapprove_device(&"alice".to_string());
    store.preapprove_device(&"alice".to_string());
    assert_eq!(store.records.len(), 1);
    assert!(store.records[0].new_device_flag);
    assert!(!store.records[0].approved);
}

#[test]
fn test_preapprove_approve_then_trusted() {
    let mut store = unapproved_store("alice", "device-1");
    store.preapprove_device(&"alice".to_string());
    store
        .approve_device(&"alice".to_string(), &device("device-1", 10_000))
        .expect("approve");

    assert!(store.is_trusted(&"alice".to_string(), &"device-1".to_string(), 100));
    // An unrelated device of the same user is not trusted.
    assert!(!store.is_trusted(&"alice".to_string(), &"device-9".to_string(), 100));
    // Nor is the approved device for another user.
    assert!(!store.is_trusted(&"bob".to_string(), &"device-1".to_string(), 100));
}

#[test]
fn test_trust_expires() {
    let mut store = unapproved_store("alice", "device-1");
    store.preapprove_device(&"alice".to_string());
    store
        .approve_device(&"alice".to_string(), &device("device-1", 5_000))
        .expect("approve");

    assert!(store.is_trusted(&"alice".to_string(), &"device-1".to_string(), 4_999));
    assert!(!store.is_trusted(&"alice".to_string(), &"device-1".to_string(), 5_000));
    assert!(!store.is_trusted(&"alice".to_string(), &"device-1".to_string(), 9_999));
}

#[test]
fn test_concurrent_reapproval_is_tolerated() {
    // Approval is check-then-act; a racing second approve only produces a
    // duplicate approved record, which callers tolerate.
    let mut store = unapproved_store("alice", "device-1");
    store.preapprove_device(&"alice".to_string());
    store
        .approve_device(&"alice".to_string(), &device("device-1", 10_000))
        .expect("first approve");
    store
        .approve_device(&"alice".to_string(), &device("device-1", 10_000))
        .expect("second approve");
    assert_eq!(store.records.len(), 3);
    assert!(store.is_trusted(&"alice".to_string(), &"device-1".to_string(), 100));
}

#[test]
fn test_empty_store_trusts_nobody() {
    let store = DeviceStore::new();
    assert!(!store.is_trusted(&"anyone".to_string(), &"anything".to_string(), 0));
}
