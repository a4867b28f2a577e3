use base64::Engine;
use crypto_box::aead::OsRng;
use crypto_box::SecretKey;
use nexus_badges::error::Error;
use nexus_badges::secrets::{encrypt_secret, seal_with_key_bytes};

fn keypair() -> (SecretKey, String) {
    let sk = SecretKey::generate(&mut OsRng);
    let pk = base64::engine::general_purpose::STANDARD.encode(sk.public_key().as_bytes());
    (sk, pk)
}

#[test]
fn sealing_twice_differs_and_both_open() {
    let (sk, pk) = keypair();
    let a = encrypt_secret("hunter2", &pk).unwrap();
    let b = encrypt_secret("hunter2", &pk).unwrap();
    assert_ne!(a, b);
    for sealed in [a, b] {
        let bytes = base64::engine::general_purpose::STANDARD.decode(sealed).unwrap();
        assert_eq!(bytes.len(), "hunter2".len() + 48);
        assert_eq!(sk.unseal(&bytes).unwrap(), b"hunter2".to_vec());
    }
}

#[test]
fn malformed_keys_are_refused() {
    assert!(matches!(encrypt_secret("s", "not base64!"), Err(Error::Decode(_))));
    let short = base64::engine::general_purpose::STANDARD.encode([7u8; 31]);
    assert!(matches!(encrypt_secret("s", &short), Err(Error::InvalidKey)));
}

#[test]
fn raw_keys_must_have_key_length() {
    assert!(matches!(seal_with_key_bytes("s", &[1u8; 31]), Err(Error::InvalidKey)));
    assert!(matches!(seal_with_key_bytes("s", &[1u8; 33]), Err(Error::InvalidKey)));
    let (sk, _) = keypair();
    let sealed = seal_with_key_bytes("abc", sk.public_key().as_bytes()).unwrap();
    let bytes = base64::engine::general_purpose::STANDARD.decode(sealed).unwrap();
    assert_eq!(bytes.len(), 32 + 16 + 3);
    assert_eq!(sk.unseal(&bytes).unwrap(), b"abc".to_vec());
}
