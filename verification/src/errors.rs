//! Closed sets of error kinds, one per component, so that callers can
//! match on the failure category instead of parsing messages.

use vstd::prelude::*;

verus! {

/// Failures of the backup cipher.
#[derive(Debug, PartialEq, Eq, Structural, Clone, Copy)]
pub enum CryptoError {
    /// The key was not exactly 32 bytes long.
    InvalidKeyLength,
    /// The blob is shorter than a 12-byte nonce, so it cannot be split.
    MissingNonce,
    /// The cipher itself refused to encrypt.
    EncryptionFailed,
    /// Tag verification failed: wrong key or corrupted data, deliberately
    /// indistinguishable.
    DecryptionFailed,
}

/// Failures of password hashing and verification.
#[derive(Debug, PartialEq, Eq, Structural, Clone, Copy)]
pub enum HashError {
    /// The hasher itself failed to produce an encoded hash.
    HashingFailed,
    /// The stored hash string cannot be parsed; distinct from a plain
    /// mismatch, which is reported as `Ok(false)`.
    MalformedHash,
}

/// Failures of session issuing, validation and the authorization
/// middleware in front of protected routes.
#[derive(Debug, PartialEq, Eq, Structural, Clone, Copy)]
pub enum AuthError {
    /// The token cannot be decoded or its signature does not match the
    /// process-wide secret.
    InvalidToken,
    /// The signature is fine but the expiry has passed.
    Expired,
    /// The (user, device) pair has no approved, unexpired record.
    UntrustedDevice,
}

/// Failures of the device approval state machine.
#[derive(Debug, PartialEq, Eq, Structural, Clone, Copy)]
pub enum DeviceError {
    /// Approval was requested while no record of the user is flagged.
    ApprovalNotEnabled,
}

/// Failures of the passkey ceremony.
#[derive(Debug, PartialEq, Eq, Structural, Clone, Copy)]
pub enum CeremonyError {
    /// Client-submitted ceremony material could not be parsed.
    BadCeremonyData,
    /// Cryptographic verification failed, the ceremony is unknown or spent,
    /// it has expired, or the origin does not match; never downgraded.
    CeremonyFailed,
    /// The relying-party origin could not be derived from the request.
    BadOrigin,
}

/// Failures of record validation and the record store.
#[derive(Debug, PartialEq, Eq, Structural, Clone, Copy)]
pub enum StoreError {
    /// A field that must carry content is empty or all whitespace.
    EmptyTitle,
    /// The encrypted payload of a record is empty or all whitespace.
    EmptyData,
    /// A record with the same id already exists.
    DuplicateId,
}

/// Failures of restoring a backup.
#[derive(Debug, PartialEq, Eq, Structural, Clone, Copy)]
pub enum RestoreError {
    /// The blob did not decrypt.
    Crypto(CryptoError),
    /// The decrypted bytes are not a serialized record sequence.
    Serialization,
}

/// Failures of startup configuration.
#[derive(Debug, PartialEq, Eq, Structural, Clone, Copy)]
pub enum ConfigError {
    /// The database connection string is absent.
    MissingMongoUri,
    /// The signing secret is absent; the services must fail fast rather
    /// than operate insecurely.
    MissingJwtSecret,
}

} // verus!
