use balabol::crypto::{CryptoError, E2eeCipher, HexDecodeError, Identity};

#[test]
fn test_identity_generation_and_signatures() {
    let id = Identity::generate();
    assert!(id.user_id().starts_with("bala:"));
    assert_eq!(id.public_key_hex().len(), 64);

    let msg = b"Hello Balabol P2P Network";
    let sig = id.sign(msg);
    let pk = id.public_key_bytes();

    assert!(Identity::verify_signature(&pk, msg, &sig).is_ok());

    let tampered = b"Hello Balabol P2P Network!";
    assert!(Identity::verify_signature(&pk, tampered, &sig).is_err());
}

#[test]
fn test_seed_export_and_restore() {
    let id1 = Identity::generate();
    let seed_hex = id1.to_seed_hex();
    let id2 = Identity::from_seed_hex(&seed_hex).unwrap();

    assert_eq!(id1.user_id(), id2.user_id());
    assert_eq!(id1.public_key_bytes(), id2.public_key_bytes());
}

#[test]
fn test_e2ee_cipher_roundtrip() {
    let key = [42u8; 32];
    let message = b"Confidential Discord voice channel state and message payload";

    let encrypted = E2eeCipher::encrypt(&key, message).unwrap();
    assert_ne!(encrypted, message);

    let decrypted = E2eeCipher::decrypt(&key, &encrypted).unwrap();
    assert_eq!(decrypted, message);

    let wrong_key = [99u8; 32];
    assert!(E2eeCipher::decrypt(&wrong_key, &encrypted).is_err());
}

#[test]
fn e2ee_payload_layout_and_short_payload() {
    let key = [7u8; 32];
    let encrypted = E2eeCipher::encrypt(&key, b"abc").unwrap();
    assert_eq!(encrypted.len(), 3 + 24 + 16);
    assert!(matches!(E2eeCipher::decrypt(&key, &[0u8; 39]), Err(CryptoError::PayloadTooShort)));
    let mut corrupted = encrypted.clone();
    corrupted[30] ^= 1;
    assert!(matches!(E2eeCipher::decrypt(&key, &corrupted), Err(CryptoError::DecryptionFailed)));
}

#[test]
fn seed_hex_errors() {
    assert!(matches!(Identity::from_seed_hex("abc"), Err(CryptoError::HexError(HexDecodeError::OddLength))));
    assert!(matches!(
        Identity::from_seed_hex("zz"),
        Err(CryptoError::HexError(HexDecodeError::InvalidHexCharacter { .. }))
    ));
    match Identity::from_seed_hex("00ff") {
        Err(CryptoError::InvalidKey(m)) => assert_eq!(m, "Seed must be exactly 32 bytes (64 hex characters)"),
        _ => panic!("a short seed must be refused"),
    }
}

#[test]
fn known_seed_gives_known_key() {
    // RFC 8032, test 1.
    let seed_hex = "9d61b19deffd5a60ba844af492ec2cc44449c5697b326919703bac031cae7f60";
    let id = Identity::from_seed_hex(seed_hex).unwrap();
    assert_eq!(id.public_key_hex(), "d75a980182b10ab7d54bfed3c964073a0ee172f3daa62325af021a68f707511a");
    assert_eq!(id.to_seed_hex(), seed_hex);
    assert_eq!(
        id.sign_hex(b""),
        "e5564300c360ac729086e2cc806e828a84877f1eb8e5d974d873e065224901555fb8821590a33bacc61e39701cf9b46bd25bf5f0595bbe24655141438e7a100b"
    );
}

#[test]
fn verify_signature_hex_accepts_prefixed_keys() {
    let id = Identity::generate();
    let msg = b"payload";
    let sig_hex = id.sign_hex(msg);
    assert!(Identity::verify_signature_hex(&id.user_id(), msg, &sig_hex).is_ok());
    assert!(Identity::verify_signature_hex(&id.public_key_hex(), msg, &sig_hex).is_ok());
    assert!(matches!(
        Identity::verify_signature_hex(&id.public_key_hex(), b"other", &sig_hex),
        Err(CryptoError::SignatureVerificationFailed)
    ));
    match Identity::verify_signature_hex("abcd", msg, &sig_hex) {
        Err(CryptoError::InvalidKey(m)) => assert_eq!(m, "Public key must be 32 bytes"),
        _ => panic!("a short key must be refused"),
    }
    match Identity::verify_signature_hex(&id.public_key_hex(), msg, "abcd") {
        Err(CryptoError::InvalidKey(m)) => assert_eq!(m, "Signature must be 64 bytes"),
        _ => panic!("a short signature must be refused"),
    }
}
