//! Room rendezvous over public relays: the room code and tag, the pacing of
//! what a relay connection sends, which relayed content ends the exchange,
//! and the signed events that carry it. The connections themselves are
//! driven outside this module.

use vstd::prelude::*;
use crate::crypto::{hex_encode, hex_lower};
use crate::text::{chars_of, push_str, starts_with, string_of, to_owned_string};
use crate::time::now_ms;

verus! {

/// Whether `c` is alphabetic or numeric in the Unicode sense.
pub uninterp spec fn unicode_alphanumeric(c: char) -> bool;

/// The Unicode lowercase form of a text (context-dependent, so taken over
/// the whole text).
pub uninterp spec fn unicode_lowercase(s: Seq<char>) -> Seq<char>;

/// An ASCII letter or digit.
pub open spec fn ascii_alphanumeric(c: char) -> bool {
    ('a' <= c <= 'z') || ('A' <= c <= 'Z') || ('0' <= c <= '9')
}

/// The ASCII lowercase form of a character: `A`-`Z` become `a`-`z`.
pub open spec fn ascii_lower(c: char) -> char {
    if 'A' <= c <= 'Z' { ((c as u32) + 32) as char } else { c }
}

/// `char::is_alphanumeric`; on ASCII, exactly the letters and digits.
#[verifier::external_body]
fn char_is_alphanumeric(c: char) -> (res: bool)
    ensures
        res == unicode_alphanumeric(c),
        (c as u32) < 128 ==> res == ascii_alphanumeric(c),
{
    c.is_alphanumeric()
}

/// `str::to_lowercase`; on an ASCII text, each letter `A`-`Z` becomes its
/// lowercase and everything else stays.
#[verifier::external_body]
pub(crate) fn to_lowercase(s: &str) -> (res: String)
    ensures
        res@ == unicode_lowercase(s@),
        (forall|i: int| 0 <= i < s@.len() ==> (#[trigger] s@[i] as u32) < 128) ==> res@ == s@.map_values(
            |c: char| ascii_lower(c),
        ),
{
    s.to_lowercase()
}

/// The alphanumeric characters of `s`, in order.
pub open spec fn alphanumeric_only(s: Seq<char>) -> Seq<char>
    decreases s.len(),
{
    if s.len() == 0 {
        s
    } else if unicode_alphanumeric(s.last()) {
        alphanumeric_only(s.drop_last()).push(s.last())
    } else {
        alphanumeric_only(s.drop_last())
    }
}

/// The room code as both sides use it: its alphanumeric characters,
/// lowercased.
pub open spec fn clean_room_code(code: Seq<char>) -> Seq<char> {
    unicode_lowercase(alphanumeric_only(code))
}

/// Every character is ASCII.
pub open spec fn all_ascii(s: Seq<char>) -> bool {
    forall|i: int| 0 <= i < s.len() ==> (#[trigger] s[i] as u32) < 128
}

/// The ASCII letters and digits of `s`, in order.
pub open spec fn ascii_alphanumeric_only(s: Seq<char>) -> Seq<char>
    decreases s.len(),
{
    if s.len() == 0 {
        s
    } else if ascii_alphanumeric(s.last()) {
        ascii_alphanumeric_only(s.drop_last()).push(s.last())
    } else {
        ascii_alphanumeric_only(s.drop_last())
    }
}

/// Keeps the alphanumeric characters of a room code and lowercases them;
/// an ASCII code keeps its letters and digits, with `A`-`Z` lowercased.
pub fn sanitize_room_code(code: &str) -> (res: String)
    ensures
        res@ == clean_room_code(code@),
        all_ascii(code@) ==> res@ == ascii_alphanumeric_only(code@).map_values(|c: char| ascii_lower(c)),
{
    let cs = chars_of(code);
    let mut kept: Vec<char> = Vec::new();
    let mut i: usize = 0;
    while i < cs.len()
        invariant
            cs@ == code@,
            0 <= i <= cs@.len(),
            kept@ == alphanumeric_only(code@.take(i as int)),
            all_ascii(code@) ==> kept@ == ascii_alphanumeric_only(code@.take(i as int)),
            all_ascii(code@) ==> all_ascii(kept@),
        decreases cs@.len() - i,
    {
        let c = cs[i];
        assert(code@.take(i + 1).drop_last() =~= code@.take(i as int));
        assert(code@.take(i + 1).last() == c);
        proof {
            if all_ascii(code@) {
                assert((code@[i as int] as u32) < 128);
            }
        }
        if char_is_alphanumeric(c) {
            kept.push(c);
        }
        i = i + 1;
    }
    assert(code@.take(cs@.len() as int) =~= code@);
    let s = string_of(kept.as_slice());
    to_lowercase(s.as_str())
}

/// The relay tag of a room: `balabol_v4_` and the cleaned room code.
pub open spec fn room_tag_of(code: Seq<char>) -> Seq<char> {
    "balabol_v4_"@ + clean_room_code(code)
}

/// The tag under which both sides of a room publish.
pub fn room_tag(room_code: &str) -> (res: String)
    ensures
        res@ == room_tag_of(room_code@),
{
    let clean = sanitize_room_code(room_code);
    let mut tag = to_owned_string("balabol_v4_");
    push_str(&mut tag, clean.as_str());
    tag
}

/// The side of a room exchange.
#[derive(Debug, Clone, Copy, PartialEq, Eq)]
pub enum SignalRole {
    /// Publishes its offer and waits for an answer.
    Host,
    /// Waits for an offer, then publishes its answer.
    Client,
}

/// The link prefix of what `role` waits for.
pub open spec fn awaited_prefix(role: SignalRole) -> Seq<char> {
    match role {
        SignalRole::Host => "bala://answer/"@,
        SignalRole::Client => "bala://offer/"@,
    }
}

/// Whether relayed event content is what `role` waits for: an answer link
/// for the host, an offer link for the client.
pub fn is_awaited_content(role: SignalRole, content: &str) -> (res: bool)
    ensures
        res == awaited_prefix(role).is_prefix_of(content@),
{
    match role {
        SignalRole::Host => starts_with(content, "bala://answer/"),
        SignalRole::Client => starts_with(content, "bala://offer/"),
    }
}

/// How often the host republishes its offer on a relay, in milliseconds.
pub const PUBLISH_INTERVAL_MS: u64 = 2500;

/// How often a relay connection is pinged to keep it open, in milliseconds.
pub const PING_INTERVAL_MS: u64 = 12000;

/// What a relay connection does at one moment.
#[derive(Debug, Clone, Copy, PartialEq, Eq)]
pub struct RelayDuties {
    /// Publish the own link (host only).
    pub publish: bool,
    /// Send a keep-alive ping.
    pub ping: bool,
}

/// The pacing of one relay connection: when the own link was last
/// published and when the connection was last pinged.
#[derive(Debug, Clone, Copy, PartialEq, Eq)]
pub struct RelayClock {
    pub role: SignalRole,
    pub last_publish_ms: Option<u64>,
    pub last_ping_ms: u64,
}

impl RelayClock {
    /// A connection opened at `now_ms`: nothing published yet, so a host
    /// publishes at once.
    pub fn new(role: SignalRole, now_ms: u64) -> (res: RelayClock)
        ensures
            res.role == role,
            res.last_publish_ms is None,
            res.last_ping_ms == now_ms,
    {
        RelayClock { role, last_publish_ms: None, last_ping_ms: now_ms }
    }

    /// What is due at `now_ms`, which is never before the last events: a
    /// host publishes when it never has or `PUBLISH_INTERVAL_MS` have
    /// passed; either side pings when `PING_INTERVAL_MS` have passed since
    /// the last ping. The clock records what was done.
    pub fn tick(&mut self, now_ms: u64) -> (res: RelayDuties)
        requires
            old(self).last_ping_ms <= now_ms,
            old(self).last_publish_ms matches Some(t) ==> t <= now_ms,
        ensures
            res.publish == (old(self).role == SignalRole::Host && match old(self).last_publish_ms {
                Some(t) => now_ms - t >= PUBLISH_INTERVAL_MS,
                None => true,
            }),
            res.ping == (now_ms - old(self).last_ping_ms >= PING_INTERVAL_MS),
            final(self).role == old(self).role,
            final(self).last_publish_ms == (if res.publish {
                Some(now_ms)
            } else {
                old(self).last_publish_ms
            }),
            final(self).last_ping_ms == (if res.ping {
                now_ms
            } else {
                old(self).last_ping_ms
            }),
    {
        let publish = match self.role {
            SignalRole::Host => match self.last_publish_ms {
                Some(t) => now_ms - t >= PUBLISH_INTERVAL_MS,
                None => true,
            },
            SignalRole::Client => false,
        };
        let ping = now_ms - self.last_ping_ms >= PING_INTERVAL_MS;
        if publish {
            self.last_publish_ms = Some(now_ms);
        }
        if ping {
            self.last_ping_ms = now_ms;
        }
        RelayDuties { publish, ping }
    }
}

/// How many more times a side publishes its own event on a relay once the
/// awaited content arrived there (30 ms apart): the client confirms its
/// answer twice; the host sends nothing more.
pub fn confirmations_on_arrival(role: SignalRole) -> (res: u32)
    ensures
        res == match role {
            SignalRole::Host => 0u32,
            SignalRole::Client => 2u32,
        },
{
    match role {
        SignalRole::Host => 0,
        SignalRole::Client => 2,
    }
}

/// Room rendezvous over public relays.
pub struct Signaling;

/// The former name of `Signaling`.
pub type MqttSignaling = Signaling;

// ---------------------------------------------------------------------------
// Signed relay events
// ---------------------------------------------------------------------------

/// The order of the secp256k1 group.
pub open spec fn secp256k1_order() -> nat {
    0xFFFFFFFFFFFFFFFFFFFFFFFFFFFFFFFEBAAEDCE6AF48A03BBFD25E8CD0364141nat
}

/// The number that bytes stand for, most significant first.
pub open spec fn big_endian_value(b: Seq<u8>) -> nat
    decreases b.len(),
{
    if b.len() == 0 {
        0
    } else {
        big_endian_value(b.drop_last()) * 256 + b.last() as nat
    }
}

/// A secp256k1 secret key: a number between zero and the group order,
/// both excluded.
pub open spec fn valid_secret_key(secret: Seq<u8>) -> bool {
    0 < big_endian_value(secret) < secp256k1_order()
}

/// The x-only public key (BIP-340) of a secp256k1 secret key.
pub uninterp spec fn x_only_public_key_of(secret: Seq<u8>) -> Seq<u8>;

/// `sig` is a valid BIP-340 signature of `msg` under the x-only public key
/// `pk` (what `secp256k1::schnorr::verify` accepts).
pub uninterp spec fn schnorr_verifies(pk: Seq<u8>, msg: Seq<u8>, sig: Seq<u8>) -> bool;

/// The SHA-256 digest of `data`.
pub uninterp spec fn sha256_of(data: Seq<u8>) -> Seq<u8>;

/// An element of a JSON array: an unsigned number, a string, or an array
/// of arrays of strings.
pub enum JsonItem {
    Number(u64),
    Text(String),
    TextTable(Vec<Vec<String>>),
}

/// What a `JsonItem` holds.
pub enum JsonItemValue {
    Number(u64),
    Text(Seq<char>),
    TextTable(Seq<Seq<Seq<char>>>),
}

impl JsonItem {
    pub open spec fn value(&self) -> JsonItemValue {
        match self {
            JsonItem::Number(n) => JsonItemValue::Number(*n),
            JsonItem::Text(t) => JsonItemValue::Text(t@),
            JsonItem::TextTable(t) => JsonItemValue::TextTable(t.deep_view()),
        }
    }
}

/// The compact JSON text that `serde_json` writes for an array of these
/// items.
pub uninterp spec fn json_array_text(items: Seq<JsonItemValue>) -> Seq<char>;

/// The items whose array is hashed into an event's id (NIP-01): `0`, the
/// public key, the time, the kind, the tags and the content, in that order.
pub open spec fn event_items(
    pubkey_hex: Seq<char>,
    created_at: u64,
    kind: u64,
    tags: Seq<Seq<Seq<char>>>,
    content: Seq<char>,
) -> Seq<JsonItemValue> {
    seq![
        JsonItemValue::Number(0),
        JsonItemValue::Text(pubkey_hex),
        JsonItemValue::Number(created_at),
        JsonItemValue::Number(kind),
        JsonItemValue::TextTable(tags),
        JsonItemValue::Text(content),
    ]
}

/// The serialization of an event whose id is its hash.
pub open spec fn event_serialization(
    pubkey_hex: Seq<char>,
    created_at: u64,
    kind: u64,
    tags: Seq<Seq<Seq<char>>>,
    content: Seq<char>,
) -> Seq<char> {
    json_array_text(event_items(pubkey_hex, created_at, kind, tags, content))
}

/// `Keypair::from_secret_bytes` and `x_only_public_key`: the x-only
/// public key of a secret key; a zero key or one not below the group order
/// is refused.
#[verifier::external_body]
fn schnorr_public_key(secret: &[u8; 32]) -> (res: Option<[u8; 32]>)
    ensures
        res is Some <==> valid_secret_key(secret@),
        res matches Some(k) ==> k@ == x_only_public_key_of(secret@),
{
    match secp256k1::Keypair::from_secret_bytes(*secret) {
        Ok(kp) => Some(kp.x_only_public_key().0.serialize()),
        Err(_) => None,
    }
}

/// `secp256k1::schnorr::sign`: a BIP-340 signature of `msg` by the key pair
/// of `secret`, which verifies under the key pair's x-only public key. It is
/// made with fresh random auxiliary data, so its bytes themselves are not
/// stated.
#[verifier::external_body]
fn schnorr_sign(secret: &[u8; 32], msg: &[u8; 32]) -> (res: [u8; 64])
    requires
        valid_secret_key(secret@),
    ensures
        schnorr_verifies(x_only_public_key_of(secret@), msg@, res@),
{
    match secp256k1::Keypair::from_secret_bytes(*secret) {
        Ok(kp) => secp256k1::schnorr::sign(msg, &kp).to_byte_array(),
        Err(_) => [0u8; 64],
    }
}

/// `sha2::Sha256::digest`.
#[verifier::external_body]
fn sha256(data: &[u8]) -> (res: [u8; 32])
    ensures
        res@ == sha256_of(data@),
{
    let digest = <sha2::Sha256 as sha2::Digest>::digest(data);
    digest.into()
}

/// `serde_json::Value::to_string` of a JSON array, each item converted to a
/// `serde_json::Value` (number, string, or array of arrays of strings).
#[verifier::external_body]
fn serialize_json_array(items: &Vec<JsonItem>) -> (res: String)
    ensures
        res@ == json_array_text(items@.map_values(|i: JsonItem| i.value())),
{
    serde_json::Value::Array(
        items.iter().map(|i| match i {
            JsonItem::Number(n) => serde_json::Value::from(*n),
            JsonItem::Text(t) => serde_json::Value::from(t.as_str()),
            JsonItem::TextTable(t) => serde_json::Value::from(t.clone()),
        }).collect(),
    ).to_string()
}

/// The key that signs relay events: a valid secp256k1 secret key and its
/// x-only public key.
#[derive(Clone, Copy)]
pub struct EventSigner {
    secret: [u8; 32],
    public_key: [u8; 32],
}

impl EventSigner {
    pub closed spec fn secret(&self) -> Seq<u8> {
        self.secret@
    }

    /// The signer's x-only public key.
    pub closed spec fn public_key(&self) -> Seq<u8> {
        self.public_key@
    }

    pub closed spec fn wf(&self) -> bool {
        &&& valid_secret_key(self.secret@)
        &&& self.public_key@ == x_only_public_key_of(self.secret@)
    }

    /// The signer of a secret key; `None` when the key is not a valid
    /// secp256k1 secret key.
    pub fn from_secret(secret: [u8; 32]) -> (res: Option<EventSigner>)
        ensures
            res is Some <==> valid_secret_key(secret@),
            res matches Some(s) ==> s.wf() && s.secret() == secret@,
    {
        match schnorr_public_key(&secret) {
            Some(public_key) => Some(EventSigner { secret, public_key }),
            None => None,
        }
    }

    /// The lowercase hex text of the signer's x-only public key.
    pub fn public_key_hex(&self) -> (res: String)
        ensures
            res@ == hex_lower(self.public_key()),
    {
        hex_encode(&self.public_key)
    }
}

/// A signed relay event (NIP-01): its id is the hex SHA-256 of the
/// serialization of the other fields, and its signature is made over the
/// id.
#[derive(Debug, Clone)]
pub struct NostrEvent {
    pub id: String,
    pub pubkey: String,
    pub created_at: u64,
    pub kind: u64,
    pub tags: Vec<Vec<String>>,
    pub content: String,
    pub sig: String,
}

/// The id of an event: the SHA-256 digest of the UTF-8 encoding of its
/// serialization.
pub open spec fn event_digest(
    pubkey_hex: Seq<char>,
    created_at: u64,
    kind: u64,
    tags: Seq<Seq<Seq<char>>>,
    content: Seq<char>,
) -> Seq<u8> {
    sha256_of(vstd::utf8::encode_utf8(event_serialization(pubkey_hex, created_at, kind, tags, content)))
}

/// The event is made by `signer` at `created_at` with these fields: the
/// public key is the signer's, the id is the hex digest of the
/// serialization, and the signature is the hex of 64 bytes that verify under
/// the signer's public key over that digest.
pub open spec fn event_made_by(
    e: NostrEvent,
    signer: EventSigner,
    created_at: u64,
    kind: u64,
    tags: Seq<Seq<Seq<char>>>,
    content: Seq<char>,
) -> bool {
    &&& e.pubkey@ == hex_lower(signer.public_key())
    &&& e.created_at == created_at
    &&& e.kind == kind
    &&& e.tags.deep_view() == tags
    &&& e.content@ == content
    &&& e.id@ == hex_lower(event_digest(hex_lower(signer.public_key()), created_at, kind, tags, content))
    &&& exists|sig: Seq<u8>|
        sig.len() == 64 && e.sig@ == hex_lower(sig) && schnorr_verifies(
            signer.public_key(),
            event_digest(hex_lower(signer.public_key()), created_at, kind, tags, content),
            sig,
        )
}

/// Signs an event made at `created_at` (seconds since the Unix epoch).
pub fn sign_event_at(signer: &EventSigner, created_at: u64, kind: u64, tags: Vec<Vec<String>>, content: &str) -> (res:
    NostrEvent)
    requires
        signer.wf(),
    ensures
        event_made_by(res, *signer, created_at, kind, tags.deep_view(), content@),
{
    let pubkey = signer.public_key_hex();
    let ghost tag_view = tags.deep_view();
    let mut items: Vec<JsonItem> = Vec::new();
    items.push(JsonItem::Number(0));
    items.push(JsonItem::Text(pubkey.clone()));
    items.push(JsonItem::Number(created_at));
    items.push(JsonItem::Number(kind));
    items.push(JsonItem::TextTable(tags));
    items.push(JsonItem::Text(to_owned_string(content)));
    proof {
        assert(items@.map_values(|i: JsonItem| i.value()) =~= event_items(pubkey@, created_at, kind, tag_view, content@));
    }
    let serialized = serialize_json_array(&items);
    let _ = items.pop();
    let tags = match items.pop() {
        Some(JsonItem::TextTable(t)) => t,
        _ => {
            assert(false);
            Vec::new()
        },
    };
    let digest = sha256(serialized.as_str().as_bytes());
    let id = hex_encode(&digest);
    let sig = schnorr_sign(&signer.secret, &digest);
    let sig_hex = hex_encode(&sig);
    NostrEvent { id, pubkey, created_at, kind, tags, content: to_owned_string(content), sig: sig_hex }
}

/// Signs an event made now: as `sign_event_at` with the clock's seconds
/// since the Unix epoch.
pub fn create_signed_event(signer: &EventSigner, kind: u64, tags: Vec<Vec<String>>, content: &str) -> (res: NostrEvent)
    requires
        signer.wf(),
    ensures
        event_made_by(res, *signer, res.created_at, kind, tags.deep_view(), content@),
{
    let now = now_ms() / 1000;
    sign_event_at(signer, now, kind, tags, content)
}

} // verus!
