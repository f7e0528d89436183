//! The backup cipher: authenticated encryption of full-database snapshots.
//!
//! A produced blob is the 12-byte nonce followed by the ciphertext and its
//! 16-byte tag. The nonce travels with the blob — it is not secret — and
//! decryption splits it off again. A key of any length other than 32 bytes
//! is rejected before any cipher primitive is touched, and any tag failure
//! collapses to one generic error so the cipher is no key-guessing oracle.

use vstd::prelude::*;

use crate::aead::{aead_decrypt, aead_encrypt, aead_plaintext_max, aead_seal, random_nonce};
use crate::codec::{
    decode_records, encode_records, lemma_encode_of_parse_list, lemma_parse_of_encode_list,
    list_fits, spec_encode_list, views,
};
use crate::errors::{CryptoError, RestoreError};
use crate::records::Record;

verus! {

/// Key material for a backup, as submitted by the caller.
#[derive(Debug, Clone)]
pub struct BackupRequest {
    pub encryption_key: String,
}

/// Key material and blob for a restore, as submitted by the caller.
#[derive(Debug, Clone)]
pub struct RestoreRequest {
    pub encryption_key: String,
    pub backup_data: Vec<u8>,
}

/// A well-formed blob for key `key` and plaintext `p`: at least a nonce
/// long, and everything after the nonce is the sealing of `p` under the key
/// and that nonce.
pub open spec fn wf_blob(blob: Seq<u8>, key: Seq<u8>, p: Seq<u8>) -> bool {
    &&& blob.len() >= 12
    &&& blob.subrange(12, blob.len() as int) == aead_seal(key, blob.subrange(0, 12), p)
}

/// Encrypt a snapshot: reject any key that is not exactly 32 bytes, draw a
/// fresh random nonce, and return nonce-then-ciphertext. Every produced
/// blob is well formed for the submitted plaintext, so decrypting it with
/// the same key returns exactly that plaintext.
pub fn encrypt_data(data: &[u8], key: &[u8]) -> (r: Result<Vec<u8>, CryptoError>)
    ensures
        key@.len() != 32 <==> r == Err::<Vec<u8>, CryptoError>(CryptoError::InvalidKeyLength),
        key@.len() == 32 && data@.len() <= aead_plaintext_max() ==> r is Ok,
        r matches Ok(blob) ==> blob@.len() == data@.len() + 28 && wf_blob(blob@, key@, data@),
{
    if key.len() != 32 {
        return Err(CryptoError::InvalidKeyLength);
    }
    let mut blob = random_nonce();
    let ghost nonce = blob@;
    match aead_encrypt(key, blob.as_slice(), data) {
        Ok(mut ct) => {
            blob.append(&mut ct);
            proof {
                assert(blob@.subrange(0, 12) =~= nonce);
                assert(blob@.subrange(12, blob@.len() as int) =~= aead_seal(key@, nonce, data@));
            }
            Ok(blob)
        },
        Err(_) => Err(CryptoError::EncryptionFailed),
    }
}

/// Decrypt a blob: reject any key that is not exactly 32 bytes, reject a
/// blob too short to carry a nonce, split the nonce off and open the rest.
/// Success happens exactly on well-formed blobs, and the result is the one
/// plaintext the blob is well formed for; a wrong key and corrupted data
/// are deliberately indistinguishable.
pub fn decrypt_data(encrypted_data: &[u8], key: &[u8]) -> (r: Result<Vec<u8>, CryptoError>)
    ensures
        key@.len() != 32 <==> r == Err::<Vec<u8>, CryptoError>(CryptoError::InvalidKeyLength),
        key@.len() == 32 && encrypted_data@.len() < 12 <==> r == Err::<Vec<u8>, CryptoError>(
            CryptoError::MissingNonce,
        ),
        r matches Ok(pt) ==> wf_blob(encrypted_data@, key@, pt@),
        key@.len() == 32 ==> forall|p: Seq<u8>|
            wf_blob(encrypted_data@, key@, p) ==> (r matches Ok(pt) && pt@ == p),
        key@.len() == 32 && encrypted_data@.len() >= 12 && r is Err ==> r == Err::<
            Vec<u8>,
            CryptoError,
        >(CryptoError::DecryptionFailed),
{
    if key.len() != 32 {
        return Err(CryptoError::InvalidKeyLength);
    }
    if encrypted_data.len() < 12 {
        return Err(CryptoError::MissingNonce);
    }
    let (nonce, ciphertext) = encrypted_data.split_at(12);
    proof {
        assert(nonce@ =~= encrypted_data@.subrange(0, 12));
        assert(ciphertext@ =~= encrypted_data@.subrange(12, encrypted_data@.len() as int));
    }
    match aead_decrypt(key, nonce, ciphertext) {
        Ok(pt) => Ok(pt),
        Err(_) => {
            proof {
                assert forall|p: Seq<u8>| !wf_blob(encrypted_data@, key@, p) by {
                    if wf_blob(encrypted_data@, key@, p) {
                        assert(ciphertext@ == aead_seal(key@, nonce@, p));
                    }
                }
            }
            Err(CryptoError::DecryptionFailed)
        },
    }
}

/// Law: a blob assembled from any 12-byte nonce and the sealing of `p` is
/// well formed for exactly `p` — so a blob produced by encryption under a
/// key decrypts, under the same key, to the plaintext it was made from.
pub proof fn lemma_blob_round_trip(key: Seq<u8>, nonce: Seq<u8>, p: Seq<u8>)
    requires
        nonce.len() == 12,
    ensures
        wf_blob(nonce + aead_seal(key, nonce, p), key, p),
{
    let blob = nonce + aead_seal(key, nonce, p);
    assert(blob.subrange(0, 12) =~= nonce);
    assert(blob.subrange(12, blob.len() as int) =~= aead_seal(key, nonce, p));
}

/// Back up a snapshot: serialize the records to their canonical byte
/// encoding and encrypt the result. The produced blob is well formed for
/// exactly that encoding, so restoring it with the same key returns the
/// same records.
pub fn backup_records(records: &Vec<Record>, key: &[u8]) -> (r: Result<Vec<u8>, CryptoError>)
    ensures
        list_fits(views(records@)),
        key@.len() != 32 <==> r == Err::<Vec<u8>, CryptoError>(CryptoError::InvalidKeyLength),
        r matches Ok(blob) ==> wf_blob(blob@, key@, spec_encode_list(views(records@))),
        key@.len() == 32 && spec_encode_list(views(records@)).len() <= aead_plaintext_max() ==> r
            is Ok,
{
    let encoded = encode_records(records);
    encrypt_data(encoded.as_slice(), key)
}

/// Restore a snapshot: decrypt the blob and deserialize the record
/// sequence. All-or-nothing — a decryption or deserialization failure
/// returns an error before any record is handed out — and exactly the
/// blobs produced from a snapshot under this key restore to that snapshot.
pub fn restore_records(backup_data: &[u8], key: &[u8]) -> (r: Result<Vec<Record>, RestoreError>)
    ensures
        key@.len() != 32 <==> r == Err::<Vec<Record>, RestoreError>(
            RestoreError::Crypto(CryptoError::InvalidKeyLength),
        ),
        r matches Ok(rs) ==> wf_blob(backup_data@, key@, spec_encode_list(views(rs@))),
        key@.len() == 32 ==> forall|vs: Seq<(Seq<char>, Seq<char>, Seq<char>)>|
            list_fits(vs) && wf_blob(backup_data@, key@, spec_encode_list(vs)) ==> (r matches Ok(
                rs,
            ) && views(rs@) == vs),
{
    let plaintext = match decrypt_data(backup_data, key) {
        Ok(p) => p,
        Err(e) => {
            proof {
                if key@.len() == 32 {
                    assert forall|vs: Seq<(Seq<char>, Seq<char>, Seq<char>)>| !(list_fits(vs)
                        && wf_blob(backup_data@, key@, spec_encode_list(vs))) by {
                        if wf_blob(backup_data@, key@, spec_encode_list(vs)) {
                            assert(backup_data@.len() >= 12);
                        }
                    }
                }
            }
            return Err(RestoreError::Crypto(e));
        },
    };
    match decode_records(plaintext.as_slice()) {
        Some(records) => {
            proof {
                lemma_encode_of_parse_list(plaintext@, 0);
                assert(plaintext@.subrange(0, plaintext@.len() as int) =~= plaintext@);
                assert forall|vs: Seq<(Seq<char>, Seq<char>, Seq<char>)>|
                    list_fits(vs) && wf_blob(backup_data@, key@, spec_encode_list(vs)) implies views(
                    records@,
                ) == vs by {
                    assert(plaintext@ == spec_encode_list(vs));
                    lemma_parse_of_encode_list(plaintext@, 0, vs);
                }
            }
            Ok(records)
        },
        None => {
            proof {
                assert forall|vs: Seq<(Seq<char>, Seq<char>, Seq<char>)>| !(list_fits(vs)
                    && wf_blob(backup_data@, key@, spec_encode_list(vs))) by {
                    if list_fits(vs) && wf_blob(backup_data@, key@, spec_encode_list(vs)) {
                        assert(plaintext@ == spec_encode_list(vs));
                        assert(plaintext@.subrange(0, plaintext@.len() as int) =~= plaintext@);
                        lemma_parse_of_encode_list(plaintext@, 0, vs);
                    }
                }
            }
            Err(RestoreError::Serialization)
        },
    }
}

} // verus!
