use balabol::crypto::Identity;
use balabol::rendezvous::{
    announce_message, announce_request, check_announce, clean_public_key, AnnounceRequest, BatchLookupRequest,
    PeerRegistry, RECORD_TTL_SECS,
};

#[test]
fn signed_announcement_is_accepted_and_found() {
    let id = Identity::generate();
    let now = 1_700_000_000_000u64;
    let req = announce_request(&id, "2.27.58.7:46801", "cone", now);
    let mut reg = PeerRegistry::new();
    let resp = reg.announce(req, "2.27.58.7".to_string(), "2.27.58.7:5555".to_string(), now).unwrap();
    assert!(resp.success);
    assert_eq!(resp.ttl_secs, RECORD_TTL_SECS);
    assert_eq!(resp.observed_addr, "2.27.58.7:5555");
    let rec = reg.lookup(&id.user_id()).unwrap();
    assert_eq!(rec.endpoint, "2.27.58.7:46801");
    assert_eq!(rec.public_key_hex, id.public_key_hex());
    assert_eq!(reg.len(), 1);
    let batch = reg.batch_lookup(&BatchLookupRequest { public_keys: vec![id.user_id(), "bala:00".to_string()] });
    assert_eq!(batch.len(), 1);
}

#[test]
fn announce_rejections() {
    let id = Identity::generate();
    let now = 1_000_000u64;
    let good = announce_request(&id, "e", "open", now);
    let with = |f: &dyn Fn(&mut AnnounceRequest)| {
        let mut r = good.clone();
        f(&mut r);
        r
    };
    let err = |r: &AnnounceRequest| check_announce(r, now).unwrap_err();
    assert_eq!(err(&with(&|r| r.public_key_hex = "zz".into())).message, "Invalid public key hex format");
    assert_eq!(err(&with(&|r| r.public_key_hex = "00".into())).message, "Public key must be 32 bytes");
    assert_eq!(err(&with(&|r| r.signature_hex = "0".into())).message, "Invalid signature hex format");
    assert_eq!(err(&with(&|r| r.signature_hex = "00".into())).message, "Signature must be 64 bytes");
    let forged = err(&with(&|r| r.endpoint = "elsewhere".into()));
    assert_eq!(forged.status, 401);
    assert_eq!(forged.message, "Signature verification failed");
    let late = check_announce(&good, now + 300_001).unwrap_err();
    assert_eq!(late.status, 400);
    assert_eq!(late.message, "Timestamp drifted too far from server clock");
    assert!(check_announce(&good, now + 300_000).is_ok());
    assert!(check_announce(&good, now - 300_000).is_ok());
}

#[test]
fn stale_records_are_evicted() {
    let id = Identity::generate();
    let mut reg = PeerRegistry::new();
    let req = announce_request(&id, "e", "open", 1_000_000);
    reg.announce(req, "ip".into(), "addr".into(), 1_000_000).unwrap();
    assert_eq!(reg.evict_stale(1_000_000 + 120_000), 0);
    assert_eq!(reg.evict_stale(1_000_000 + 120_001), 1);
    assert!(reg.lookup(&id.public_key_hex()).is_none());
}

#[test]
fn announce_message_layout() {
    assert_eq!(announce_message("1.2.3.4:5", 42, "cone"), "1.2.3.4:5:42:cone");
    assert_eq!(clean_public_key("bala:ab"), "ab");
    assert_eq!(clean_public_key("ab"), "ab");
}
