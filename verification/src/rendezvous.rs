//! The rendezvous registry: nodes announce their endpoint under their
//! Ed25519 key, signing `<endpoint>:<timestamp_ms>:<nat_type>`; others look
//! them up by key. Records expire after a fixed time.

use vstd::prelude::*;
use vstd::string::StringSliceAdditionalSpecFns;
use vstd::utf8::encode_utf8;
use crate::crypto::{
    ed25519_signature, hex_encode, hex_lower, lemma_hex_roundtrip, Identity,
    array32, array64, ed25519_check, ed25519_key_decodes, ed25519_key_valid, ed25519_verifies, hex_bytes,
    hex_decode, hex_ok, strip, strip_prefix, SignatureCheck,
};
use crate::text::{decimal, push_decimal, push_str, to_owned_string};

verus! {

/// How long a record lives without a new announcement, in seconds.
pub const RECORD_TTL_SECS: u64 = 120;

/// How far an announcement's timestamp may be from the server's clock, in
/// milliseconds.
pub const MAX_CLOCK_DRIFT_MS: u64 = 300_000;

/// A node announcing where it can be reached.
#[derive(Debug, Clone, PartialEq, Eq)]
pub struct AnnounceRequest {
    pub public_key_hex: String,
    /// `ip:port` or a multiaddress.
    pub endpoint: String,
    /// `open`, `cone`, `symmetric` or `unknown`.
    pub nat_type: String,
    pub timestamp_ms: u64,
    pub signature_hex: String,
}

/// What the registry knows of a node.
#[derive(Debug, Clone, PartialEq, Eq)]
pub struct PeerRecord {
    pub public_key_hex: String,
    pub endpoint: String,
    pub observed_ip: String,
    pub nat_type: String,
    pub last_seen_ms: u64,
}

/// The answer to an accepted announcement.
#[derive(Debug, Clone, PartialEq, Eq)]
pub struct AnnounceResponse {
    pub success: bool,
    pub observed_addr: String,
    pub ttl_secs: u64,
}

/// A lookup of several keys at once.
#[derive(Debug, Clone, PartialEq, Eq)]
pub struct BatchLookupRequest {
    pub public_keys: Vec<String>,
}

/// Why an announcement was refused: an HTTP status and a message.
#[derive(Debug, Clone, PartialEq, Eq)]
pub struct Rejection {
    pub status: u16,
    pub message: String,
}

/// The text a node signs when it announces itself.
pub open spec fn announce_message_of(endpoint: Seq<char>, timestamp_ms: u64, nat_type: Seq<char>) -> Seq<char> {
    endpoint + ":"@ + decimal(timestamp_ms as nat) + ":"@ + nat_type
}

/// Builds the text a node signs when it announces itself.
pub fn announce_message(endpoint: &str, timestamp_ms: u64, nat_type: &str) -> (res: String)
    ensures
        res@ == announce_message_of(endpoint@, timestamp_ms, nat_type@),
{
    let mut s = to_owned_string(endpoint);
    push_str(&mut s, ":");
    push_decimal(&mut s, timestamp_ms);
    push_str(&mut s, ":");
    push_str(&mut s, nat_type);
    s
}

/// A key as records are filed under it: without a `bala:` prefix.
pub open spec fn clean_key(key: Seq<char>) -> Seq<char> {
    strip(key, "bala:"@)
}

/// A key without its `bala:` prefix, if it has one.
pub fn clean_public_key(key: &str) -> (res: String)
    ensures
        res@ == clean_key(key@),
{
    match strip_prefix(key, "bala:") {
        Some(rest) => rest,
        None => to_owned_string(key),
    }
}

/// The timestamp is within `MAX_CLOCK_DRIFT_MS` of `now_ms`.
pub open spec fn timestamp_fresh(timestamp_ms: u64, now_ms: u64) -> bool {
    &&& timestamp_ms <= now_ms + MAX_CLOCK_DRIFT_MS
    &&& timestamp_ms >= if now_ms >= MAX_CLOCK_DRIFT_MS { now_ms - MAX_CLOCK_DRIFT_MS } else { 0 }
}

/// What an announcement is answered: the first failing check, in order,
/// gives the rejection; an announcement passing all of them is accepted.
pub open spec fn announce_verdict(req: AnnounceRequest, now_ms: u64) -> Result<(), (u16, Seq<char>)> {
    let pk = encode_utf8(clean_key(req.public_key_hex@));
    let sg = encode_utf8(req.signature_hex@);
    if !hex_ok(pk) {
        Err((400, "Invalid public key hex format"@))
    } else if hex_bytes(pk).len() != 32 {
        Err((400, "Public key must be 32 bytes"@))
    } else if !ed25519_key_valid(hex_bytes(pk)) {
        Err((400, "Invalid Ed25519 public key"@))
    } else if !hex_ok(sg) {
        Err((400, "Invalid signature hex format"@))
    } else if hex_bytes(sg).len() != 64 {
        Err((400, "Signature must be 64 bytes"@))
    } else if !ed25519_verifies(
        hex_bytes(pk),
        encode_utf8(announce_message_of(req.endpoint@, req.timestamp_ms, req.nat_type@)),
        hex_bytes(sg),
    ) {
        Err((401, "Signature verification failed"@))
    } else if !timestamp_fresh(req.timestamp_ms, now_ms) {
        Err((400, "Timestamp drifted too far from server clock"@))
    } else {
        Ok(())
    }
}

/// Checks an announcement against the keys, the signature and the clock.
pub fn check_announce(req: &AnnounceRequest, now_ms: u64) -> (res: Result<(), Rejection>)
    requires
        now_ms <= u64::MAX - MAX_CLOCK_DRIFT_MS,
    ensures
        match (res, announce_verdict(*req, now_ms)) {
            (Ok(()), Ok(())) => true,
            (Err(r), Err((status, message))) => r.status == status && r.message@ == message,
            _ => false,
        },
{
    let clean_pk = clean_public_key(req.public_key_hex.as_str());
    let pk_bytes = match hex_decode(clean_pk.as_str()) {
        Ok(b) => b,
        Err(_) => return Err(Rejection { status: 400, message: to_owned_string("Invalid public key hex format") }),
    };
    if pk_bytes.len() != 32 {
        return Err(Rejection { status: 400, message: to_owned_string("Public key must be 32 bytes") });
    }
    let pk_arr = array32(&pk_bytes);
    if !ed25519_key_decodes(&pk_arr) {
        return Err(Rejection { status: 400, message: to_owned_string("Invalid Ed25519 public key") });
    }
    let sig_bytes = match hex_decode(req.signature_hex.as_str()) {
        Ok(b) => b,
        Err(_) => return Err(Rejection { status: 400, message: to_owned_string("Invalid signature hex format") }),
    };
    if sig_bytes.len() != 64 {
        return Err(Rejection { status: 400, message: to_owned_string("Signature must be 64 bytes") });
    }
    let sig_arr = array64(&sig_bytes);
    let message = announce_message(req.endpoint.as_str(), req.timestamp_ms, req.nat_type.as_str());
    match ed25519_check(&pk_arr, message.as_str().as_bytes(), &sig_arr) {
        SignatureCheck::Valid => {},
        _ => return Err(Rejection { status: 401, message: to_owned_string("Signature verification failed") }),
    }
    let low = if now_ms >= MAX_CLOCK_DRIFT_MS { now_ms - MAX_CLOCK_DRIFT_MS } else { 0 };
    if req.timestamp_ms > now_ms + MAX_CLOCK_DRIFT_MS || req.timestamp_ms < low {
        return Err(Rejection { status: 400, message: to_owned_string("Timestamp drifted too far from server clock") });
    }
    Ok(())
}

/// The announcement a node makes at `now_ms`: its public key in hex, the
/// endpoint and NAT type, and its signature of the announce message. The
/// registry accepts it when it arrives within the allowed clock drift.
pub fn announce_request(identity: &Identity, endpoint: &str, nat_type: &str, now_ms: u64) -> (res: AnnounceRequest)
    requires
        identity.wf(),
        now_ms <= u64::MAX - MAX_CLOCK_DRIFT_MS,
    ensures
        res.public_key_hex@ == hex_lower(identity.public_key()),
        res.endpoint@ == endpoint@,
        res.nat_type@ == nat_type@,
        res.timestamp_ms == now_ms,
        res.signature_hex@ == hex_lower(
            ed25519_signature(identity.seed(), encode_utf8(announce_message_of(endpoint@, now_ms, nat_type@))),
        ),
        announce_verdict(res, now_ms) == Ok::<(), (u16, Seq<char>)>(()),
{
    let message = announce_message(endpoint, now_ms, nat_type);
    let sig = identity.sign(message.as_str().as_bytes());
    let req = AnnounceRequest {
        public_key_hex: identity.public_key_hex(),
        endpoint: to_owned_string(endpoint),
        nat_type: to_owned_string(nat_type),
        timestamp_ms: now_ms,
        signature_hex: hex_encode(&sig),
    };
    proof {
        let pk = identity.public_key();
        identity.lemma_wf();
        lemma_hex_roundtrip(pk);
        lemma_hex_roundtrip(sig@);
        let h = hex_lower(pk);
        assert(!"bala:"@.is_prefix_of(h)) by {
            reveal_strlit("bala:");
            if "bala:"@.is_prefix_of(h) {
                assert(h.subrange(0, 5)[2] == h[2]);
                assert(h[2] == 'l');
                let n = pk[1] as int / 16;
                assert(h[2] == crate::crypto::hex_digit(n));
                assert(0 <= n < 16);
            }
        }
    }
    req
}

// ---------------------------------------------------------------------------
// The registry
// ---------------------------------------------------------------------------

#[verifier::external_type_specification]
#[verifier::external_body]
#[verifier::reject_recursive_types(K)]
#[verifier::reject_recursive_types(V)]
#[verifier::reject_recursive_types(S)]
pub struct ExDashMap<K, V, S>(dashmap::DashMap<K, V, S>);

/// The records a registry map holds, by key.
pub uninterp spec fn registry_records(m: dashmap::DashMap<String, PeerRecord>) -> Map<Seq<char>, PeerRecord>;

/// `DashMap::new`: an empty map.
#[verifier::external_body]
fn registry_map_new() -> (res: dashmap::DashMap<String, PeerRecord>)
    ensures
        registry_records(res).dom().is_empty(),
{
    dashmap::DashMap::new()
}

/// `DashMap::insert` on the registry's map: files `record` under `key`,
/// replacing what was there.
#[verifier::external_body]
fn registry_map_insert(reg: &mut PeerRegistry, key: String, record: PeerRecord)
    ensures
        final(reg).records() == old(reg).records().insert(key@, record),
{
    reg.peers.insert(key, record);
}

/// `DashMap::get`, cloned out: the record filed under `key`.
#[verifier::external_body]
fn registry_map_get(m: &dashmap::DashMap<String, PeerRecord>, key: &str) -> (res: Option<PeerRecord>)
    ensures
        res == (if registry_records(*m).contains_key(key@) {
            Some(registry_records(*m)[key@])
        } else {
            None
        }),
{
    m.get(key).map(|r| r.value().clone())
}

/// `DashMap::len`: the number of records; they are finitely many, so the
/// count is never the `-1` that an infinite domain would stand for.
#[verifier::external_body]
fn registry_map_len(m: &dashmap::DashMap<String, PeerRecord>) -> (res: usize)
    ensures
        res as int == if registry_records(*m).dom().finite() {
            registry_records(*m).dom().len() as int
        } else {
            -1
        },
{
    m.len()
}

/// A record seen at or after `threshold_ms` is kept.
pub open spec fn record_kept(record: PeerRecord, threshold_ms: u64) -> bool {
    record.last_seen_ms >= threshold_ms
}

/// Whether a record seen at `last_seen_ms` is kept at `threshold_ms`.
pub fn is_kept(record: &PeerRecord, threshold_ms: u64) -> (res: bool)
    ensures
        res == record_kept(*record, threshold_ms),
{
    record.last_seen_ms >= threshold_ms
}

/// `DashMap::retain` with `is_kept` on the registry's map: drops the
/// records seen before `threshold_ms`.
#[verifier::external_body]
fn registry_map_retain_seen_since(reg: &mut PeerRegistry, threshold_ms: u64)
    ensures
        final(reg).records() == old(reg).records().restrict(
            old(reg).records().dom().filter(|k: Seq<char>| record_kept(old(reg).records()[k], threshold_ms)),
        ),
{
    reg.peers.retain(|_, r| is_kept(r, threshold_ms));
}

/// The records of announced nodes, filed under their cleaned keys.
pub struct PeerRegistry {
    peers: dashmap::DashMap<String, PeerRecord>,
}

impl PeerRegistry {
    /// The records by key.
    pub closed spec fn records(&self) -> Map<Seq<char>, PeerRecord> {
        registry_records(self.peers)
    }

    /// An empty registry.
    pub fn new() -> (res: Self)
        ensures
            res.records() == Map::<Seq<char>, PeerRecord>::empty(),
    {
        let r = PeerRegistry { peers: registry_map_new() };
        assert(r.records() =~= Map::<Seq<char>, PeerRecord>::empty());
        r
    }

    /// Number of records.
    pub fn len(&self) -> (res: usize)
        ensures
            self.records().dom().finite(),
            res == self.records().dom().len(),
    {
        registry_map_len(&self.peers)
    }

    /// Handles an announcement received at `now_ms` from `observed_addr`
    /// (whose IP is `observed_ip`): when it passes `check_announce`, the
    /// node's record is filed under its cleaned key, seen now; otherwise
    /// nothing changes.
    pub fn announce(&mut self, req: AnnounceRequest, observed_ip: String, observed_addr: String, now_ms: u64) -> (res:
        Result<AnnounceResponse, Rejection>)
        requires
            now_ms <= u64::MAX - MAX_CLOCK_DRIFT_MS,
        ensures
            match (res, announce_verdict(req, now_ms)) {
                (Ok(resp), Ok(())) => {
                    let key = clean_key(req.public_key_hex@);
                    &&& resp.success
                    &&& resp.observed_addr == observed_addr
                    &&& resp.ttl_secs == RECORD_TTL_SECS
                    &&& final(self).records().dom() == old(self).records().dom().insert(key)
                    &&& forall|k: Seq<char>| #[trigger] final(self).records().contains_key(k) && k != key
                        ==> final(self).records()[k] == old(self).records()[k]
                    &&& final(self).records()[key].public_key_hex@ == key
                    &&& final(self).records()[key].endpoint == req.endpoint
                    &&& final(self).records()[key].observed_ip == observed_ip
                    &&& final(self).records()[key].nat_type == req.nat_type
                    &&& final(self).records()[key].last_seen_ms == now_ms
                },
                (Err(r), Err((status, message))) => r.status == status && r.message@ == message
                    && final(self).records() == old(self).records(),
                _ => false,
            },
    {
        match check_announce(&req, now_ms) {
            Err(r) => Err(r),
            Ok(()) => {
                let key = clean_public_key(req.public_key_hex.as_str());
                let record = PeerRecord {
                    public_key_hex: key.clone(),
                    endpoint: req.endpoint,
                    observed_ip,
                    nat_type: req.nat_type,
                    last_seen_ms: now_ms,
                };
                registry_map_insert(self, key, record);
                Ok(AnnounceResponse { success: true, observed_addr, ttl_secs: RECORD_TTL_SECS })
            },
        }
    }

    /// The record of a key, given with or without `bala:`.
    pub fn lookup(&self, public_key: &str) -> (res: Option<PeerRecord>)
        ensures
            res == (if self.records().contains_key(clean_key(public_key@)) {
                Some(self.records()[clean_key(public_key@)])
            } else {
                None
            }),
    {
        let key = clean_public_key(public_key);
        registry_map_get(&self.peers, key.as_str())
    }

    /// The records of those keys that are known, in the order asked.
    pub fn batch_lookup(&self, req: &BatchLookupRequest) -> (res: Vec<PeerRecord>)
        ensures
            res@ == found_records(self.records(), req.public_keys@),
    {
        let mut found: Vec<PeerRecord> = Vec::new();
        let mut i: usize = 0;
        while i < req.public_keys.len()
            invariant
                0 <= i <= req.public_keys@.len(),
                found@ == found_records(self.records(), req.public_keys@.take(i as int)),
            decreases req.public_keys@.len() - i,
        {
            assert(req.public_keys@.take(i + 1).drop_last() =~= req.public_keys@.take(i as int));
            match self.lookup(req.public_keys[i].as_str()) {
                Some(r) => found.push(r),
                None => {},
            }
            i = i + 1;
        }
        assert(req.public_keys@.take(req.public_keys@.len() as int) =~= req.public_keys@);
        found
    }

    /// Drops the records not seen within `RECORD_TTL_SECS` of `now_ms`, and
    /// tells how many were dropped.
    pub fn evict_stale(&mut self, now_ms: u64) -> (res: usize)
        ensures
            final(self).records() == old(self).records().restrict(
                old(self).records().dom().filter(
                    |k: Seq<char>| record_kept(old(self).records()[k], eviction_threshold(now_ms)),
                ),
            ),
            res == old(self).records().dom().len() - final(self).records().dom().len(),
    {
        let before = registry_map_len(&self.peers);
        let threshold = if now_ms >= RECORD_TTL_SECS * 1000 { now_ms - RECORD_TTL_SECS * 1000 } else { 0 };
        registry_map_retain_seen_since(self, threshold);
        let after = registry_map_len(&self.peers);
        proof {
            let old_m = old(self).records();
            let kept = old_m.dom().filter(|k: Seq<char>| record_kept(old_m[k], threshold));
            assert(kept.subset_of(old_m.dom()));
            assert(self.records().dom() =~= kept);
            vstd::set_lib::lemma_len_subset(kept, old_m.dom());
        }
        before - after
    }
}

/// The cutoff below which records are dropped at `now_ms`.
pub open spec fn eviction_threshold(now_ms: u64) -> u64 {
    if now_ms >= RECORD_TTL_SECS * 1000 { (now_ms - RECORD_TTL_SECS * 1000) as u64 } else { 0 }
}

/// The records filed under those `keys` (cleaned) that are known, in order.
pub open spec fn found_records(records: Map<Seq<char>, PeerRecord>, keys: Seq<String>) -> Seq<PeerRecord>
    decreases keys.len(),
{
    if keys.len() == 0 {
        Seq::empty()
    } else {
        let prev = found_records(records, keys.drop_last());
        let k = clean_key(keys.last()@);
        if records.contains_key(k) {
            prev.push(records[k])
        } else {
            prev
        }
    }
}

} // verus!
