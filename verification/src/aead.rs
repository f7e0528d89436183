//! Trusted boundary around the AES-256-GCM primitive and the secure random
//! source. The cipher is a vetted black box: sealing under a key and nonce
//! is named by an uninterpreted function, and the two wrappers state the
//! standard authenticated-encryption contract over that name.

use vstd::prelude::*;

use aes_gcm::aead::{Aead, KeyInit};
use aes_gcm::{Aes256Gcm, Key, Nonce};
use rand_core::RngCore;

verus! {

/// The ciphertext-with-tag that AES-256-GCM produces for a 32-byte key, a
/// 12-byte nonce and a plaintext. Sealing is a pure function of these three
/// arguments; its pages-long definition is left uninterpreted.
pub uninterp spec fn aead_seal(key: Seq<u8>, nonce: Seq<u8>, plaintext: Seq<u8>) -> Seq<u8>;

/// The largest plaintext AES-GCM accepts (2^36 bytes); longer inputs are
/// refused by the cipher itself.
pub open spec fn aead_plaintext_max() -> int {
    0x10_0000_0000
}

/// Relies on aes_gcm::Aes256Gcm via aead::Aead::encrypt: sealing appends a
/// 16-byte tag to a same-length ciphertext and fails only on plaintexts
/// longer than 2^36 bytes.
#[verifier::external_body]
pub(crate) fn aead_encrypt(key: &[u8], nonce: &[u8], plaintext: &[u8]) -> (r: Result<Vec<u8>, ()>)
    requires
        key@.len() == 32,
        nonce@.len() == 12,
    ensures
        r matches Ok(ct) ==> ct@ == aead_seal(key@, nonce@, plaintext@) && ct@.len()
            == plaintext@.len() + 16,
        plaintext@.len() <= aead_plaintext_max() ==> r is Ok,
{
    let cipher = Aes256Gcm::new(Key::<Aes256Gcm>::from_slice(key));
    cipher.encrypt(Nonce::from_slice(nonce), plaintext).map_err(|_| ())
}

/// Relies on aes_gcm::Aes256Gcm via aead::Aead::decrypt: opening inverts
/// sealing under the same key and nonce, and — reading the tag check as the
/// standard unforgeability guarantee of AES-GCM — succeeds only on bytes
/// that were sealed under exactly this key and nonce.
#[verifier::external_body]
pub(crate) fn aead_decrypt(key: &[u8], nonce: &[u8], ciphertext: &[u8]) -> (r: Result<Vec<u8>, ()>)
    requires
        key@.len() == 32,
        nonce@.len() == 12,
    ensures
        r matches Ok(pt) ==> ciphertext@ == aead_seal(key@, nonce@, pt@),
        r matches Ok(pt) ==> forall|p: Seq<u8>|
            ciphertext@ == aead_seal(key@, nonce@, p) ==> pt@ == p,
        r is Err ==> forall|p: Seq<u8>| ciphertext@ != aead_seal(key@, nonce@, p),
{
    let cipher = Aes256Gcm::new(Key::<Aes256Gcm>::from_slice(key));
    cipher.decrypt(Nonce::from_slice(nonce), ciphertext).map_err(|_| ())
}

/// Relies on rand_core::OsRng::fill_bytes: a fresh 12-byte nonce from the
/// operating system's secure random source. Nothing but its length can be
/// promised of a random value.
#[verifier::external_body]
pub(crate) fn random_nonce() -> (r: Vec<u8>)
    ensures
        r@.len() == 12,
{
    let mut nonce_bytes = vec![0u8; 12];
    aes_gcm::aead::OsRng.fill_bytes(&mut nonce_bytes);
    nonce_bytes
}

/// Relies on rand::Rng::fill on the thread-local secure generator: `len`
/// random bytes. Nothing but the length can be promised of a random value.
#[verifier::external_body]
pub fn gen_random(len: usize) -> (r: Vec<u8>)
    ensures
        r@.len() == len,
{
    let mut buf = vec![0u8; len];
    rand::Rng::fill(&mut rand::thread_rng(), buf.as_mut_slice());
    buf
}

/// Relies on rand::Rng::gen on the thread-local secure generator: a random
/// 32-byte encryption key. Nothing but the length can be promised of a
/// random value.
#[verifier::external_body]
pub fn generate_key() -> (r: [u8; 32])
    ensures
        r@.len() == 32,
{
    rand::Rng::gen(&mut rand::thread_rng())
}

} // verus!
