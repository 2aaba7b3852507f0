use balabol::signaling::{
    create_signed_event, is_awaited_content, room_tag, sanitize_room_code, sign_event_at, EventSigner, RelayClock,
    SignalRole,
};
use sha2::Digest;

#[test]
fn test_room_code_sanitization() {
    assert_eq!(sanitize_room_code("123-456"), "123456");
    assert_eq!(sanitize_room_code(" Room #42! "), "room42");
}

#[test]
fn room_tag_uses_clean_code() {
    assert_eq!(room_tag(" AB-12 "), "balabol_v4_ab12");
}

#[test]
fn host_waits_for_answers_and_client_for_offers() {
    assert!(is_awaited_content(SignalRole::Host, "bala://answer/xyz"));
    assert!(!is_awaited_content(SignalRole::Host, "bala://offer/xyz"));
    assert!(is_awaited_content(SignalRole::Client, "bala://offer/xyz"));
    assert!(!is_awaited_content(SignalRole::Client, "hello"));
}

#[test]
fn relay_clock_paces_publishing_and_pings() {
    let mut host = RelayClock::new(SignalRole::Host, 1_000);
    let d = host.tick(1_000);
    assert!(d.publish);
    assert!(!d.ping);
    assert!(!host.tick(2_000).publish);
    assert!(host.tick(3_500).publish);
    assert!(host.tick(13_000).ping);
    assert!(!host.tick(14_000).ping);
    let mut client = RelayClock::new(SignalRole::Client, 0);
    assert!(!client.tick(0).publish);
    assert!(client.tick(12_000).ping);
}

fn secret_one() -> [u8; 32] {
    let mut k = [0u8; 32];
    k[31] = 1;
    k
}

#[test]
fn only_valid_secret_keys_sign() {
    assert!(EventSigner::from_secret([0u8; 32]).is_none());
    let order = hex::decode("fffffffffffffffffffffffffffffffebaaedce6af48a03bbfd25e8cd0364141").unwrap();
    let mut o = [0u8; 32];
    o.copy_from_slice(&order);
    assert!(EventSigner::from_secret(o).is_none());
    o[31] = 0x40;
    assert!(EventSigner::from_secret(o).is_some());
    assert!(EventSigner::from_secret(secret_one()).is_some());
}

#[test]
fn signed_events_carry_their_digest_and_a_valid_signature() {
    let signer = EventSigner::from_secret(secret_one()).unwrap();
    let g = "79be667ef9dcbbac55a06295ce870b07029bfcdb2dce28d959f2815b16f81798";
    assert_eq!(signer.public_key_hex(), g);
    let tags = vec![vec!["t".to_string(), "room".to_string()], vec!["type".to_string(), "offer".to_string()]];
    let evt = sign_event_at(&signer, 1_700_000_000, 1, tags.clone(), "hello \"you\"");
    let serialized = format!(
        "[0,\"{}\",1700000000,1,[[\"t\",\"room\"],[\"type\",\"offer\"]],\"hello \\\"you\\\"\"]",
        g
    );
    let digest = sha2::Sha256::digest(serialized.as_bytes());
    assert_eq!(evt.id, hex::encode(digest));
    assert_eq!(evt.pubkey, g);
    assert_eq!(evt.created_at, 1_700_000_000);
    assert_eq!(evt.tags, tags);
    assert_eq!(evt.content, "hello \"you\"");
    assert_eq!(evt.sig.len(), 128);
    let sig = secp256k1::schnorr::Signature::from_slice(&hex::decode(&evt.sig).unwrap()).unwrap();
    let pk = secp256k1::XOnlyPublicKey::from_slice(&hex::decode(g).unwrap()).unwrap();
    assert!(secp256k1::schnorr::verify(&sig, &digest, &pk).is_ok());
    let now = create_signed_event(&signer, 1, tags, "x");
    assert!(now.created_at > 1_700_000_000);
}

#[test]
fn test_event_signing() {
    let mut rng = secp256k1::rand::rng();
    let keypair = secp256k1::Keypair::new(&mut rng);
    let signer = EventSigner::from_secret(keypair.to_secret_bytes()).unwrap();
    let evt = create_signed_event(&signer, 1, vec![vec!["t".into(), "test_tag".into()]], "test_content");
    assert!(!evt.id.is_empty());
    assert!(!evt.sig.is_empty());
    assert_eq!(evt.content, "test_content");
}
