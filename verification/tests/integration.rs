use aegis::aead::random_nonce;
use aegis::{decrypt, derive_key, encrypt, random_salt, KdfParams};

const PASSWORD: &[u8] = b"correct horse battery staple";
const WRONG_PASSWORD: &[u8] = b"correct horse battery stable";

#[test]
fn kdf_is_deterministic() {
    let salt = [0x42u8; 16];
    let params = KdfParams::fast_for_tests();
    let k1 = derive_key(PASSWORD, &salt, params).unwrap();
    let k2 = derive_key(PASSWORD, &salt, params).unwrap();
    assert_eq!(k1.as_bytes(), k2.as_bytes());
}

#[test]
fn kdf_different_salt_yields_different_key() {
    let s1 = [0x01u8; 16];
    let s2 = [0x02u8; 16];
    let params = KdfParams::fast_for_tests();
    let k1 = derive_key(PASSWORD, &s1, params).unwrap();
    let k2 = derive_key(PASSWORD, &s2, params).unwrap();
    assert_ne!(k1.as_bytes(), k2.as_bytes());
}

#[test]
fn kdf_different_password_yields_different_key() {
    let salt = [0x42u8; 16];
    let params = KdfParams::fast_for_tests();
    let k1 = derive_key(PASSWORD, &salt, params).unwrap();
    let k2 = derive_key(WRONG_PASSWORD, &salt, params).unwrap();
    assert_ne!(k1.as_bytes(), k2.as_bytes());
}

#[test]
fn aead_round_trip() {
    let salt = random_salt().unwrap();
    let key = derive_key(PASSWORD, &salt, KdfParams::fast_for_tests()).unwrap();
    let nonce = random_nonce().unwrap();
    let plaintext = b"the launch codes are in the briefcase";
    let aad = b"file=secret.txt";

    let ct = encrypt(&key, &nonce, aad, plaintext).unwrap();
    assert_ne!(ct.as_slice(), plaintext);
    assert!(ct.len() > plaintext.len()); // tag appended

    let pt = decrypt(&key, &nonce, aad, &ct).unwrap();
    assert_eq!(pt.as_slice(), plaintext);
}

#[test]
fn aead_empty_plaintext_round_trip() {
    let key = derive_key(PASSWORD, &[0u8; 16], KdfParams::fast_for_tests()).unwrap();
    let nonce = [0u8; 24];
    let ct = encrypt(&key, &nonce, b"", b"").unwrap();
    let pt = decrypt(&key, &nonce, b"", &ct).unwrap();
    assert!(pt.is_empty());
}

#[test]
fn aead_large_buffer_round_trip() {
    let key = derive_key(PASSWORD, &[7u8; 16], KdfParams::fast_for_tests()).unwrap();
    let nonce = [9u8; 24];
    let plaintext = vec![0xABu8; 1_000_000];
    let ct = encrypt(&key, &nonce, b"meta", &plaintext).unwrap();
    let pt = decrypt(&key, &nonce, b"meta", &ct).unwrap();
    assert_eq!(pt, plaintext);
}

#[test]
fn aead_wrong_password_fails() {
    let salt = [0u8; 16];
    let params = KdfParams::fast_for_tests();
    let good = derive_key(PASSWORD, &salt, params).unwrap();
    let bad = derive_key(WRONG_PASSWORD, &salt, params).unwrap();
    let nonce = random_nonce().unwrap();
    let ct = encrypt(&good, &nonce, b"", b"secret").unwrap();
    assert!(decrypt(&bad, &nonce, b"", &ct).is_err());
}

#[test]
fn aead_wrong_nonce_fails() {
    let key = derive_key(PASSWORD, &[0u8; 16], KdfParams::fast_for_tests()).unwrap();
    let n1 = [1u8; 24];
    let n2 = [2u8; 24];
    let ct = encrypt(&key, &n1, b"", b"secret").unwrap();
    assert!(decrypt(&key, &n2, b"", &ct).is_err());
}

#[test]
fn aead_wrong_aad_fails() {
    let key = derive_key(PASSWORD, &[0u8; 16], KdfParams::fast_for_tests()).unwrap();
    let nonce = [3u8; 24];
    let ct = encrypt(&key, &nonce, b"context-A", b"secret").unwrap();
    assert!(decrypt(&key, &nonce, b"context-B", &ct).is_err());
}

#[test]
fn aead_tampered_ciphertext_fails() {
    let key = derive_key(PASSWORD, &[0u8; 16], KdfParams::fast_for_tests()).unwrap();
    let nonce = [4u8; 24];
    let mut ct = encrypt(&key, &nonce, b"", b"secret payload").unwrap();
    // Flip a byte in the ciphertext body (not the tag).
    ct[0] ^= 0x01;
    assert!(decrypt(&key, &nonce, b"", &ct).is_err());
}

#[test]
fn aead_tampered_tag_fails() {
    let key = derive_key(PASSWORD, &[0u8; 16], KdfParams::fast_for_tests()).unwrap();
    let nonce = [5u8; 24];
    let mut ct = encrypt(&key, &nonce, b"", b"secret payload").unwrap();
    let last = ct.len() - 1;
    ct[last] ^= 0x80;
    assert!(decrypt(&key, &nonce, b"", &ct).is_err());
}

#[test]
fn aead_truncated_ciphertext_fails() {
    let key = derive_key(PASSWORD, &[0u8; 16], KdfParams::fast_for_tests()).unwrap();
    let nonce = [6u8; 24];
    let ct = encrypt(&key, &nonce, b"", b"secret payload").unwrap();
    let truncated = &ct[..ct.len() - 1];
    assert!(decrypt(&key, &nonce, b"", truncated).is_err());
}

#[test]
fn random_salt_is_random() {
    let s1 = random_salt().unwrap();
    let s2 = random_salt().unwrap();
    assert_ne!(s1, s2);
}

#[test]
fn random_nonce_is_random() {
    let n1 = random_nonce().unwrap();
    let n2 = random_nonce().unwrap();
    assert_ne!(n1, n2);
}

#[test]
fn aead_ciphertext_is_plaintext_plus_tag() {
    let key = derive_key(PASSWORD, &[1u8; 16], KdfParams::fast_for_tests()).unwrap();
    let nonce = [8u8; 24];
    let ct = encrypt(&key, &nonce, b"aad", b"twelve bytes").unwrap();
    assert_eq!(ct.len(), 12 + aegis::aead::TAG_LEN);
    assert_ne!(&ct[..12], b"twelve bytes");
}

#[test]
fn aead_too_short_ciphertext_is_invalid_length() {
    let key = derive_key(PASSWORD, &[1u8; 16], KdfParams::fast_for_tests()).unwrap();
    let err = decrypt(&key, &[0u8; 24], b"", &[0u8; 15]).unwrap_err();
    assert!(matches!(err, aegis::Error::InvalidLength { expected: 16, got: 15 }), "got {err:?}");
}

#[test]
fn aead_failure_is_aead_error() {
    let key = derive_key(PASSWORD, &[1u8; 16], KdfParams::fast_for_tests()).unwrap();
    let err = decrypt(&key, &[0u8; 24], b"", &[0u8; 40]).unwrap_err();
    assert!(matches!(err, aegis::Error::Aead), "got {err:?}");
}

#[test]
fn kdf_accepts_minimum_params() {
    let params = KdfParams { memory_kib: 8, iterations: 1, parallelism: 1 };
    let k1 = derive_key(b"password", &[0u8; 16], params).unwrap();
    let k2 = derive_key(b"password", &[0u8; 16], params).unwrap();
    assert_eq!(k1.as_bytes(), k2.as_bytes());
    assert_ne!(k1.as_bytes(), &[0u8; 32]);
}

#[test]
fn kdf_rejects_invalid_params() {
    let salt = [0u8; 16];
    for params in [
        KdfParams { memory_kib: 7, iterations: 1, parallelism: 1 },
        KdfParams { memory_kib: 15, iterations: 1, parallelism: 2 },
        KdfParams { memory_kib: 8, iterations: 0, parallelism: 1 },
        KdfParams { memory_kib: 8, iterations: 1, parallelism: 0 },
    ] {
        match derive_key(PASSWORD, &salt, params) {
            Err(aegis::Error::Kdf(_)) => {}
            Err(err) => panic!("got {err:?}"),
            Ok(_) => panic!("params accepted"),
        }
    }
}

#[test]
fn kdf_params_presets() {
    let strong = KdfParams::default_strong();
    assert_eq!((strong.memory_kib, strong.iterations, strong.parallelism), (262144, 3, 4));
    let fast = KdfParams::fast_for_tests();
    assert_eq!((fast.memory_kib, fast.iterations, fast.parallelism), (8192, 1, 1));
}

#[test]
fn key_bytes_round_trip() {
    let bytes = [0x5Au8; 32];
    let key = aegis::Key::from_bytes(bytes);
    assert_eq!(key.as_bytes(), &bytes);
}
