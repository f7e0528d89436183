use valutx::devices::{Device, DeviceRecord, DeviceStore};
use valutx::errors::AuthError;
use valutx::middleware::validate_request;
use valutx::session::SessionTokenService;

fn service() -> SessionTokenService {
    SessionTokenService::new(b"a process-wide signing secret".to_vec())
}

#[test]
fn test_issue_then_validate_before_expiry() {
    let svc = service();
    let token = svc.issue("alice", "device-1", 1_000, 600);
    let claims = svc.validate(&token, 1_100).expect("validate");
    assert_eq!(claims.user_id, "alice");
    assert_eq!(claims.device_id, "device-1");
    assert_eq!(claims.expiration, 1_600);
}

#[test]
fn test_validate_after_expiry_fails() {
    let svc = service();
    let token = svc.issue("alice", "device-1", 1_000, 600);
    assert_eq!(svc.validate(&token, 1_600), Err(AuthError::Expired));
    assert_eq!(svc.validate(&token, 2_000_000), Err(AuthError::Expired));
}

#[test]
fn test_validate_with_wrong_secret_fails() {
    let svc = service();
    let other = SessionTokenService::new(b"a different secret".to_vec());
    let token = svc.issue("alice", "device-1", 1_000, 600);
    assert_eq!(other.validate(&token, 1_100), Err(AuthError::InvalidToken));
}

#[test]
fn test_tampering_invalidates_signature() {
    let svc = service();
    let token = svc.issue("alice", "device-1", 1_000, 600);
    let bytes = token.as_bytes();
    for i in 0..bytes.len() {
        let mut tampered = bytes.to_vec();
        // Stay inside the base64url alphabet so only the signature check
        // can reject the change.
        tampered[i] = if tampered[i] == b'A' { b'B' } else { b'A' };
        if tampered == bytes {
            continue;
        }
        let tampered = String::from_utf8(tampered).expect("utf8");
        assert_eq!(
            svc.validate(&tampered, 1_100),
            Err(AuthError::InvalidToken),
            "tampered byte {} was accepted",
            i
        );
    }
}

#[test]
fn test_validate_garbage_fails() {
    let svc = service();
    assert_eq!(svc.validate("", 0), Err(AuthError::InvalidToken));
    assert_eq!(svc.validate("not.a.token", 0), Err(AuthError::InvalidToken));
}

fn approved_store(user: &str, device: &str, expiration: u64) -> DeviceStore {
    DeviceStore {
        records: vec![DeviceRecord {
            user_id: user.to_string(),
            device_id: device.to_string(),
            approved: true,
            new_device_flag: false,
            expiration,
        }],
    }
}

#[test]
fn test_validate_request_accepts_trusted_device_only() {
    let svc = service();
    let token = svc.issue("alice", "device-1", 1_000, 600);

    let devices = approved_store("alice", "device-1", 10_000);
    let claims = validate_request(&svc, &devices, &token, 1_100).expect("authorized");
    assert_eq!(claims.user_id, "alice");

    // Same token, no matching approved record: fail closed.
    let other_device = approved_store("alice", "device-2", 10_000);
    assert_eq!(
        validate_request(&svc, &other_device, &token, 1_100),
        Err(AuthError::UntrustedDevice)
    );

    // A record whose hard expiry has passed does not prove trust.
    let expired_record = approved_store("alice", "device-1", 1_050);
    assert_eq!(
        validate_request(&svc, &expired_record, &token, 1_100),
        Err(AuthError::UntrustedDevice)
    );

    // An expired token never reaches the trust check.
    assert_eq!(
        validate_request(&svc, &devices, &token, 1_600),
        Err(AuthError::Expired)
    );

    let device = Device {
        device_id: "device-1".to_string(),
        expiration: 0,
        user_id: "alice".to_string(),
    };
    assert_eq!(device.user_id, "alice");
}
