use base64::engine::general_purpose::STANDARD as BASE64;
use base64::Engine;
use maze_ssh::crypto::{
    decrypt, decrypt_checked, derive_key, encrypt, encrypt_with_nonce, generate_salt, CryptoError,
    EncryptedBlob, KdfParams,
};

#[test]
fn round_trip_encrypt_decrypt() {
    let key = generate_salt();
    let plaintext = b"hello world, this is a secret message";
    let blob = encrypt(plaintext, &key).unwrap();
    let decrypted = decrypt(&blob, &key).unwrap();
    assert_eq!(decrypted, plaintext);
}

#[test]
fn wrong_key_fails_decrypt() {
    let key1 = generate_salt();
    let key2 = generate_salt();
    let plaintext = b"secret data";
    let blob = encrypt(plaintext, &key1).unwrap();
    let result = decrypt(&blob, &key2);
    assert!(result.is_err());
    assert!(matches!(result.unwrap_err(), CryptoError::DecryptionError(_)));
}

#[test]
fn derive_key_deterministic() {
    let params = KdfParams {
        salt: BASE64.encode([42u8; 32]),
        memory_cost: 256,
        time_cost: 1,
        parallelism: 1,
    };
    let key1 = derive_key("my_password", &params).unwrap();
    let key2 = derive_key("my_password", &params).unwrap();
    assert_eq!(key1.as_bytes(), key2.as_bytes());
}

#[test]
fn derive_key_different_salt_differs() {
    let params1 = KdfParams { salt: BASE64.encode([1u8; 32]), memory_cost: 256, time_cost: 1, parallelism: 1 };
    let params2 = KdfParams { salt: BASE64.encode([2u8; 32]), memory_cost: 256, time_cost: 1, parallelism: 1 };
    let key1 = derive_key("same_password", &params1).unwrap();
    let key2 = derive_key("same_password", &params2).unwrap();
    assert_ne!(key1.as_bytes(), key2.as_bytes());
}

#[test]
fn derive_key_different_password_differs() {
    let params = KdfParams { salt: BASE64.encode([42u8; 32]), memory_cost: 256, time_cost: 1, parallelism: 1 };
    let key1 = derive_key("password_a", &params).unwrap();
    let key2 = derive_key("password_b", &params).unwrap();
    assert_ne!(key1.as_bytes(), key2.as_bytes());
}

#[test]
fn full_kdf_then_encrypt_decrypt() {
    let params = KdfParams {
        salt: BASE64.encode(generate_salt()),
        memory_cost: 256,
        time_cost: 1,
        parallelism: 1,
    };
    let derived = derive_key("test_passphrase", &params).unwrap();
    let plaintext = b"encrypted with derived key";
    let blob = encrypt(plaintext, derived.as_bytes()).unwrap();
    let decrypted = decrypt(&blob, derived.as_bytes()).unwrap();
    assert_eq!(decrypted, plaintext);
}

// ── Further cases ──

#[test]
fn kdf_params_default_values() {
    let params = KdfParams::default();
    assert_eq!(params.memory_cost, 65_536);
    assert_eq!(params.time_cost, 3);
    assert_eq!(params.parallelism, 1);
    assert_eq!(BASE64.decode(&params.salt).unwrap().len(), 32);
}

#[test]
fn encrypt_with_nonce_is_deterministic_and_encodes_nonce() {
    let key = [7u8; 32];
    let nonce = [9u8; 12];
    let a = encrypt_with_nonce(b"abc", &key, &nonce).unwrap();
    let b = encrypt_with_nonce(b"abc", &key, &nonce).unwrap();
    assert_eq!(a.ciphertext, b.ciphertext);
    assert_eq!(a.nonce, BASE64.encode(nonce));
    // the ciphertext carries the 16-byte tag after the plaintext
    assert_eq!(BASE64.decode(&a.ciphertext).unwrap().len(), 3 + 16);
    assert_ne!(BASE64.decode(&a.ciphertext).unwrap(), b"abc".to_vec());
}

#[test]
fn derive_key_bad_salt_is_invalid_input() {
    let params = KdfParams { salt: "not base64!".to_string(), memory_cost: 256, time_cost: 1, parallelism: 1 };
    match derive_key("pw", &params) {
        Err(CryptoError::InvalidInput(m)) => assert!(m.starts_with("bad base64 salt: ")),
        _ => panic!("expected InvalidInput"),
    }
}

#[test]
fn derive_key_bad_params_is_kdf_error() {
    let params = KdfParams { salt: BASE64.encode([1u8; 32]), memory_cost: 256, time_cost: 0, parallelism: 1 };
    assert!(matches!(derive_key("pw", &params), Err(CryptoError::KdfError(_))));
}

#[test]
fn decrypt_bad_base64_fields() {
    let key = [1u8; 32];
    let bad_nonce = EncryptedBlob { nonce: "%%".into(), ciphertext: BASE64.encode([0u8; 20]) };
    match decrypt(&bad_nonce, &key) {
        Err(CryptoError::InvalidInput(m)) => assert!(m.starts_with("bad base64 nonce: ")),
        _ => panic!("expected InvalidInput"),
    }
    let bad_ct = EncryptedBlob { nonce: BASE64.encode([0u8; 12]), ciphertext: "%%".into() };
    match decrypt(&bad_ct, &key) {
        Err(CryptoError::InvalidInput(m)) => assert!(m.starts_with("bad base64 ciphertext: ")),
        _ => panic!("expected InvalidInput"),
    }
}

#[test]
fn decrypt_checked_refuses_short_nonce() {
    let key = [1u8; 32];
    let blob = EncryptedBlob { nonce: BASE64.encode([0u8; 5]), ciphertext: BASE64.encode([0u8; 20]) };
    assert!(decrypt_checked(&blob, &key).is_none());
    let good = encrypt(b"x", &key).unwrap();
    assert_eq!(decrypt_checked(&good, &key).unwrap().unwrap(), b"x".to_vec());
}
