use valutx::backup::{backup_records, decrypt_data, encrypt_data, restore_records};
use valutx::codec::{decode_records, encode_records};
use valutx::errors::{CryptoError, RestoreError};
use valutx::records::Record;

fn zero_key() -> Vec<u8> {
    vec![0u8; 32]
}

#[test]
fn test_round_trip_hello_vault() {
    let key = zero_key();
    let blob = encrypt_data(b"hello vault", &key).expect("encrypt");
    let plain = decrypt_data(&blob, &key).expect("decrypt");
    assert_eq!(plain, b"hello vault".to_vec());

    let short_key = vec![0u8; 31];
    let r = decrypt_data(&blob, &short_key);
    assert_eq!(r, Err(CryptoError::InvalidKeyLength));
}

#[test]
fn test_round_trip_various_plaintexts() {
    let key = valutx::aead::generate_key();
    for data in [&b""[..], &b"a"[..], &[0u8; 1000][..]] {
        let blob = encrypt_data(data, &key).expect("encrypt");
        assert_eq!(blob.len(), data.len() + 28);
        let plain = decrypt_data(&blob, &key).expect("decrypt");
        assert_eq!(plain, data.to_vec());
    }
}

#[test]
fn test_encrypt_rejects_bad_key_length() {
    assert_eq!(encrypt_data(b"x", &vec![0u8; 31]), Err(CryptoError::InvalidKeyLength));
    assert_eq!(encrypt_data(b"x", &vec![0u8; 33]), Err(CryptoError::InvalidKeyLength));
    assert_eq!(encrypt_data(b"x", &vec![]), Err(CryptoError::InvalidKeyLength));
}

#[test]
fn test_decrypt_rejects_short_blob() {
    let key = zero_key();
    assert_eq!(decrypt_data(&[0u8; 11], &key), Err(CryptoError::MissingNonce));
    assert_eq!(decrypt_data(&[], &key), Err(CryptoError::MissingNonce));
}

#[test]
fn test_fresh_nonces_differ() {
    // Two separate encrypt calls draw distinct nonces with overwhelming
    // probability; over fifty samples a single collision fails the test.
    let key = zero_key();
    let mut nonces: Vec<Vec<u8>> = Vec::new();
    for _ in 0..50 {
        let blob = encrypt_data(b"same plaintext", &key).expect("encrypt");
        let nonce = blob[..12].to_vec();
        assert!(!nonces.contains(&nonce), "nonce reused");
        nonces.push(nonce);
    }
}

#[test]
fn test_any_single_bit_flip_fails_decryption() {
    let key = zero_key();
    let blob = encrypt_data(b"vault", &key).expect("encrypt");
    for byte in 0..blob.len() {
        for bit in 0..8 {
            let mut tampered = blob.clone();
            tampered[byte] ^= 1u8 << bit;
            assert_eq!(
                decrypt_data(&tampered, &key),
                Err(CryptoError::DecryptionFailed),
                "flip at byte {} bit {} was accepted",
                byte,
                bit
            );
        }
    }
}

#[test]
fn test_wrong_key_fails_never_wrong_plaintext() {
    let key = zero_key();
    let blob = encrypt_data(b"secret data", &key).expect("encrypt");
    for i in 0..32 {
        let mut other = zero_key();
        other[i] ^= 0x01;
        assert_eq!(decrypt_data(&blob, &other), Err(CryptoError::DecryptionFailed));
    }
}

fn sample_records() -> Vec<Record> {
    vec![
        Record {
            id: "1".to_string(),
            title: "My First Record".to_string(),
            encrypted_data: "encrypted1".to_string(),
        },
        Record {
            id: "2".to_string(),
            title: "Secure Password".to_string(),
            encrypted_data: "encrypted2".to_string(),
        },
    ]
}

fn assert_same_records(a: &[Record], b: &[Record]) {
    assert_eq!(a.len(), b.len());
    for (x, y) in a.iter().zip(b.iter()) {
        assert_eq!(x.id, y.id);
        assert_eq!(x.title, y.title);
        assert_eq!(x.encrypted_data, y.encrypted_data);
    }
}

#[test]
fn test_codec_round_trip() {
    let records = sample_records();
    let encoded = encode_records(&records);
    let decoded = decode_records(&encoded).expect("decode");
    assert_same_records(&records, &decoded);

    let empty = encode_records(&Vec::new());
    assert_eq!(empty.len(), 0);
    assert_eq!(decode_records(&empty).expect("decode").len(), 0);
}

#[test]
fn test_codec_round_trip_unicode() {
    let records = vec![Record {
        id: "ID-äöü".to_string(),
        title: "café ☕".to_string(),
        encrypted_data: "данные".to_string(),
    }];
    let encoded = encode_records(&records);
    let decoded = decode_records(&encoded).expect("decode");
    assert_same_records(&records, &decoded);
}

#[test]
fn test_codec_rejects_truncated_and_padded_input() {
    let records = sample_records();
    let encoded = encode_records(&records);
    assert!(decode_records(&encoded[..encoded.len() - 1]).is_none());
    let mut padded = encoded.clone();
    padded.push(0);
    assert!(decode_records(&padded).is_none());
    assert!(decode_records(&[7u8; 5]).is_none());
}

#[test]
fn test_backup_restore_round_trip() {
    let key = zero_key();
    let records = sample_records();
    let blob = backup_records(&records, &key).expect("backup");
    let restored = restore_records(&blob, &key).expect("restore");
    assert_same_records(&records, &restored);
}

#[test]
fn test_restore_fails_closed() {
    let key = zero_key();
    let records = sample_records();
    let blob = backup_records(&records, &key).expect("backup");

    assert_eq!(
        restore_records(&blob, &vec![0u8; 31]),
        Err(RestoreError::Crypto(CryptoError::InvalidKeyLength))
    );

    let mut other = zero_key();
    other[0] = 1;
    assert_eq!(
        restore_records(&blob, &other),
        Err(RestoreError::Crypto(CryptoError::DecryptionFailed))
    );

    let mut tampered = blob.clone();
    let last = tampered.len() - 1;
    tampered[last] ^= 0x80;
    assert_eq!(
        restore_records(&tampered, &key),
        Err(RestoreError::Crypto(CryptoError::DecryptionFailed))
    );

    // A blob that decrypts but does not deserialize aborts as well: encrypt
    // bytes that are no record encoding.
    let not_records = encrypt_data(&[1, 2, 3], &key).expect("encrypt");
    assert_eq!(restore_records(&not_records, &key), Err(RestoreError::Serialization));
}

#[test]
fn test_gen_random_length() {
    assert_eq!(valutx::aead::gen_random(0).len(), 0);
    assert_eq!(valutx::aead::gen_random(16).len(), 16);
    let a = valutx::aead::gen_random(32);
    let b = valutx::aead::gen_random(32);
    assert_ne!(a, b, "two random draws agreed");
    assert_eq!(valutx::aead::generate_key().len(), 32);
}
