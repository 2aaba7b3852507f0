//! Identities (Ed25519 keys and signatures), hex text of keys, and
//! end-to-end encryption (XChaCha20-Poly1305 with a random prepended nonce).

use vstd::prelude::*;
use vstd::string::StringSliceAdditionalSpecFns;
use vstd::utf8::{encode_utf8, is_ascii_chars, is_ascii_chars_encode_utf8};
use crate::text::{push_str, to_owned_string, chars_of, string_of};
use ed25519_dalek::{Signer, Verifier};
use rand::RngCore;
use chacha20poly1305::aead::{Aead, KeyInit};

verus! {

broadcast use vstd::array::group_array_axioms;

// ---------------------------------------------------------------------------
// Hex text
// ---------------------------------------------------------------------------

/// Why a hex text could not be decoded.
#[derive(Debug, Clone, Copy, PartialEq, Eq)]
pub enum HexDecodeError {
    /// The byte at `index` is not a hex digit.
    InvalidHexCharacter { c: char, index: usize },
    /// The text has an odd number of bytes.
    OddLength,
    /// The text does not fit the target's length.
    InvalidStringLength,
}

/// The value of a hex digit byte (either case).
pub open spec fn hex_value(b: u8) -> Option<u8> {
    if 0x30 <= b <= 0x39 {
        Some((b - 0x30) as u8)
    } else if 0x61 <= b <= 0x66 {
        Some((b - 0x61 + 10) as u8)
    } else if 0x41 <= b <= 0x46 {
        Some((b - 0x41 + 10) as u8)
    } else {
        None
    }
}

/// Every byte is a hex digit.
pub open spec fn all_hex(s: Seq<u8>) -> bool {
    forall|i: int| 0 <= i < s.len() ==> (#[trigger] hex_value(s[i])) is Some
}

/// The bytes that a hex text of even length with only hex digits stands for:
/// each pair of digits, high nibble first.
pub open spec fn hex_bytes(s: Seq<u8>) -> Seq<u8> {
    Seq::new(
        s.len() / 2,
        |i: int| (hex_value(s[2 * i])->0 * 16 + hex_value(s[2 * i + 1])->0) as u8,
    )
}

/// A hex text of even length made of hex digits only.
pub open spec fn hex_ok(s: Seq<u8>) -> bool {
    s.len() % 2 == 0 && all_hex(s)
}

/// `e` is the error that decoding the hex text `s` reports.
pub open spec fn hex_error_is(s: Seq<u8>, e: HexDecodeError) -> bool {
    if s.len() % 2 == 1 { e is OddLength } else { e is InvalidHexCharacter }
}

/// The lowercase hex digit of a nibble.
pub open spec fn hex_digit(n: int) -> char {
    if n < 10 { ((n + 0x30) as u8) as char } else { ((n - 10 + 0x61) as u8) as char }
}

/// The lowercase hex text of `b`: two digits per byte, high nibble first.
pub open spec fn hex_lower(b: Seq<u8>) -> Seq<char> {
    Seq::new(
        2 * b.len(),
        |i: int| if i % 2 == 0 { hex_digit(b[i / 2] as int / 16) } else { hex_digit(b[i / 2] as int % 16) },
    )
}

/// `hex::encode`: the lowercase hex text of `data`.
#[verifier::external_body]
pub(crate) fn hex_encode(data: &[u8]) -> (res: String)
    ensures
        res@ == hex_lower(data@),
{
    hex::encode(data)
}

/// `hex::decode`: the bytes of a hex text. Odd length is refused first;
/// otherwise every byte must be a hex digit of either case. Which invalid
/// byte is reported is not stated.
#[verifier::external_body]
pub(crate) fn hex_decode(text: &str) -> (res: Result<Vec<u8>, HexDecodeError>)
    ensures
        text.spec_bytes().len() % 2 == 1 ==> res matches Err(HexDecodeError::OddLength),
        text.spec_bytes().len() % 2 == 0 ==> match res {
            Ok(v) => all_hex(text.spec_bytes()) && v@ == hex_bytes(text.spec_bytes()),
            Err(e) => !all_hex(text.spec_bytes()) && e is InvalidHexCharacter,
        },
{
    match hex::decode(text) {
        Ok(v) => Ok(v),
        Err(hex::FromHexError::InvalidHexCharacter { c, index }) => Err(HexDecodeError::InvalidHexCharacter { c, index }),
        Err(hex::FromHexError::OddLength) => Err(HexDecodeError::OddLength),
        Err(hex::FromHexError::InvalidStringLength) => Err(HexDecodeError::InvalidStringLength),
    }
}

proof fn lemma_hex_digit_byte(n: int)
    requires
        0 <= n < 16,
    ensures
        '\0' <= hex_digit(n) <= '\u{7f}',
        hex_value(hex_digit(n) as u8) == Some(n as u8),
{
}

/// Decoding the lowercase hex text of `b` gives `b` back.
pub proof fn lemma_hex_roundtrip(b: Seq<u8>)
    ensures
        is_ascii_chars(hex_lower(b)),
        encode_utf8(hex_lower(b)).len() == 2 * b.len(),
        all_hex(encode_utf8(hex_lower(b))),
        hex_bytes(encode_utf8(hex_lower(b))) == b,
{
    let h = hex_lower(b);
    assert forall|i: int| 0 <= i < h.len() implies '\0' <= #[trigger] h[i] <= '\u{7f}' by {
        if i % 2 == 0 {
            lemma_hex_digit_byte(b[i / 2] as int / 16);
        } else {
            lemma_hex_digit_byte(b[i / 2] as int % 16);
        }
    }
    is_ascii_chars_encode_utf8(h);
    let e = encode_utf8(h);
    assert forall|i: int| 0 <= i < e.len() implies (#[trigger] hex_value(e[i])) is Some by {
        assert(h[i] as u8 == e[i]);
        if i % 2 == 0 {
            lemma_hex_digit_byte(b[i / 2] as int / 16);
        } else {
            lemma_hex_digit_byte(b[i / 2] as int % 16);
        }
    }
    assert forall|i: int| 0 <= i < b.len() implies #[trigger] hex_bytes(e)[i] == b[i] by {
        assert(h[2 * i] as u8 == e[2 * i]);
        assert(h[2 * i + 1] as u8 == e[2 * i + 1]);
        lemma_hex_digit_byte(b[i] as int / 16);
        lemma_hex_digit_byte(b[i] as int % 16);
        assert((2 * i) / 2 == i);
        assert((2 * i + 1) / 2 == i);
        assert((2 * i) % 2 == 0);
        assert((2 * i + 1) % 2 == 1);
    }
    assert(hex_bytes(e) =~= b);
}

// ---------------------------------------------------------------------------
// Ed25519
// ---------------------------------------------------------------------------

/// The Ed25519 public key of a 32-byte secret seed.
pub uninterp spec fn ed25519_public_key(seed: Seq<u8>) -> Seq<u8>;

/// The Ed25519 signature of `msg` by the key of `seed` (deterministic, RFC 8032).
pub uninterp spec fn ed25519_signature(seed: Seq<u8>, msg: Seq<u8>) -> Seq<u8>;

/// Whether 32 bytes decode to an Ed25519 public key.
pub uninterp spec fn ed25519_key_valid(public_key: Seq<u8>) -> bool;

/// Whether `sig` is a valid signature of `msg` under `public_key`.
pub uninterp spec fn ed25519_verifies(public_key: Seq<u8>, msg: Seq<u8>, sig: Seq<u8>) -> bool;

/// `SigningKey::from_bytes(seed).verifying_key().to_bytes()`: the public key
/// of a seed, which always decodes.
#[verifier::external_body]
fn ed25519_derive_public(seed: &[u8; 32]) -> (res: [u8; 32])
    ensures
        res@ == ed25519_public_key(seed@),
        ed25519_key_valid(res@),
{
    ed25519_dalek::SigningKey::from_bytes(seed).verifying_key().to_bytes()
}

/// `Signer::sign` of `SigningKey::from_bytes(seed)`: the signature of `msg`,
/// which verifies under the seed's public key.
#[verifier::external_body]
fn ed25519_sign(seed: &[u8; 32], msg: &[u8]) -> (res: [u8; 64])
    ensures
        res@ == ed25519_signature(seed@, msg@),
        ed25519_verifies(ed25519_public_key(seed@), msg@, res@),
{
    ed25519_dalek::SigningKey::from_bytes(seed).sign(msg).to_bytes()
}

/// The outcome of checking a signature.
pub enum SignatureCheck {
    /// The public key does not decode; the crate's explanation.
    KeyRejected(String),
    Mismatch,
    Valid,
}

/// `VerifyingKey::from_bytes` then `Verifier::verify` of
/// `Signature::from_bytes(sig)`.
#[verifier::external_body]
pub(crate) fn ed25519_check(public_key: &[u8; 32], msg: &[u8], sig: &[u8; 64]) -> (res: SignatureCheck)
    ensures
        (res is KeyRejected) == !ed25519_key_valid(public_key@),
        (res is Valid) == (ed25519_key_valid(public_key@) && ed25519_verifies(public_key@, msg@, sig@)),
{
    match ed25519_dalek::VerifyingKey::from_bytes(public_key) {
        Err(e) => SignatureCheck::KeyRejected(e.to_string()),
        Ok(vk) => match vk.verify(msg, &ed25519_dalek::Signature::from_bytes(sig)) {
            Ok(()) => SignatureCheck::Valid,
            Err(_) => SignatureCheck::Mismatch,
        },
    }
}

/// `VerifyingKey::from_bytes(public_key).is_ok()`: whether 32 bytes decode
/// to an Ed25519 public key.
#[verifier::external_body]
pub(crate) fn ed25519_key_decodes(public_key: &[u8; 32]) -> (res: bool)
    ensures
        res == ed25519_key_valid(public_key@),
{
    ed25519_dalek::VerifyingKey::from_bytes(public_key).is_ok()
}

/// `OsRng::fill_bytes`: 32 bytes from the operating system's secure random
/// source. Nothing is promised of their value.
#[verifier::external_body]
fn random_seed() -> [u8; 32] {
    let mut seed = [0u8; 32];
    rand::rngs::OsRng.fill_bytes(&mut seed);
    seed
}

/// The 32 bytes of `v` as an array.
pub(crate) fn array32(v: &Vec<u8>) -> (res: [u8; 32])
    requires
        v@.len() == 32,
    ensures
        res@ == v@,
{
    let mut a = [0u8; 32];
    let mut i: usize = 0;
    while i < 32
        invariant
            v@.len() == 32,
            0 <= i <= 32,
            forall|j: int| 0 <= j < i ==> a@[j] == v@[j],
        decreases 32 - i,
    {
        a[i] = v[i];
        i = i + 1;
    }
    assert(a@ =~= v@);
    a
}

/// The 64 bytes of `v` as an array.
pub(crate) fn array64(v: &Vec<u8>) -> (res: [u8; 64])
    requires
        v@.len() == 64,
    ensures
        res@ == v@,
{
    let mut a = [0u8; 64];
    let mut i: usize = 0;
    while i < 64
        invariant
            v@.len() == 64,
            0 <= i <= 64,
            forall|j: int| 0 <= j < i ==> a@[j] == v@[j],
        decreases 64 - i,
    {
        a[i] = v[i];
        i = i + 1;
    }
    assert(a@ =~= v@);
    a
}

/// Why a cryptographic operation failed.
#[derive(Debug)]
pub enum CryptoError {
    InvalidKey(String),
    SignatureVerificationFailed,
    DecryptionFailed,
    HexError(HexDecodeError),
    PayloadTooShort,
}

/// The canonical user id of a public key: `bala:` and the key's lowercase
/// hex text.
pub open spec fn user_id_of(public_key: Seq<u8>) -> Seq<char> {
    "bala:"@ + hex_lower(public_key)
}

/// `s` with `prefix` taken off, when it starts with it.
pub open spec fn strip(s: Seq<char>, prefix: Seq<char>) -> Seq<char> {
    if prefix.is_prefix_of(s) { s.skip(prefix.len() as int) } else { s }
}

/// Takes `prefix` off the front of `s` if it is there; otherwise `None`.
pub fn strip_prefix(s: &str, prefix: &str) -> (res: Option<String>)
    ensures
        match res {
            Some(r) => prefix@.is_prefix_of(s@) && r@ == s@.skip(prefix@.len() as int),
            None => !prefix@.is_prefix_of(s@),
        },
{
    let cs = chars_of(s);
    let ps = chars_of(prefix);
    if ps.len() > cs.len() {
        return None;
    }
    let mut i: usize = 0;
    while i < ps.len()
        invariant
            cs@ == s@,
            ps@ == prefix@,
            ps@.len() <= cs@.len(),
            0 <= i <= ps@.len(),
            forall|j: int| 0 <= j < i ==> cs@[j] == ps@[j],
        decreases ps@.len() - i,
    {
        if cs[i] != ps[i] {
            return None;
        }
        i = i + 1;
    }
    let mut rest: Vec<char> = Vec::new();
    let mut k: usize = ps.len();
    while k < cs.len()
        invariant
            cs@ == s@,
            ps@ == prefix@,
            ps@.len() <= k <= cs@.len(),
            rest@ == cs@.subrange(ps@.len() as int, k as int),
        decreases cs@.len() - k,
    {
        rest.push(cs[k]);
        k = k + 1;
        assert(rest@ =~= cs@.subrange(ps@.len() as int, k as int));
    }
    assert(prefix@.is_prefix_of(s@)) by {
        assert(s@.subrange(0, prefix@.len() as int) =~= prefix@);
    }
    Some(string_of(rest.as_slice()))
}

/// What restoring an identity from the seed hex text `text` gives: the
/// identity of the decoded seed, a hex error, or a length error.
pub open spec fn seed_hex_outcome(text: Seq<u8>, res: Result<Identity, CryptoError>) -> bool {
    match res {
        Ok(id) => {
            &&& id.wf()
            &&& hex_ok(text)
            &&& id.seed() == hex_bytes(text)
            &&& id.seed().len() == 32
        },
        Err(CryptoError::HexError(e)) => !hex_ok(text) && hex_error_is(text, e),
        Err(CryptoError::InvalidKey(msg)) => {
            &&& hex_ok(text)
            &&& hex_bytes(text).len() != 32
            &&& msg@ == "Seed must be exactly 32 bytes (64 hex characters)"@
        },
        Err(_) => false,
    }
}

/// Exporting a seed as hex and restoring from that text gives the identity
/// of the same seed, hence the same keys and user id.
pub proof fn lemma_seed_export_restore(seed: Seq<u8>, res: Result<Identity, CryptoError>)
    requires
        seed.len() == 32,
        seed_hex_outcome(encode_utf8(hex_lower(seed)), res),
    ensures
        res matches Ok(id) && id.seed() == seed && id.public_key() == ed25519_public_key(seed),
{
    lemma_hex_roundtrip(seed);
}

/// Cryptographic identity of a node/user: an Ed25519 key pair held as its
/// 32-byte secret seed and the matching public key.
pub struct Identity {
    seed: [u8; 32],
    public_key: [u8; 32],
}

impl Clone for Identity {
    fn clone(&self) -> (res: Self)
        ensures
            res == *self,
    {
        Identity { seed: self.seed, public_key: self.public_key }
    }
}

impl Identity {
    /// The public key belongs to the seed.
    pub closed spec fn wf(&self) -> bool {
        self.public_key@ == ed25519_public_key(self.seed@) && ed25519_key_valid(self.public_key@)
    }

    /// The secret seed.
    pub closed spec fn seed(&self) -> Seq<u8> {
        self.seed@
    }

    /// The public key.
    pub open spec fn public_key(&self) -> Seq<u8> {
        ed25519_public_key(self.seed())
    }

    /// The public key of a well-formed identity decodes, and is 32 bytes.
    pub proof fn lemma_wf(&self)
        requires
            self.wf(),
        ensures
            ed25519_key_valid(self.public_key()),
            self.public_key().len() == 32,
            self.seed().len() == 32,
    {
    }

    /// Generates a fresh random identity from the operating system's secure
    /// random source.
    pub fn generate() -> (res: Self)
        ensures
            res.wf(),
            res.seed().len() == 32,
    {
        let seed = random_seed();
        Self::from_seed(&seed)
    }

    /// Restores an identity from a 32-byte secret seed.
    pub fn from_seed(seed: &[u8; 32]) -> (res: Self)
        ensures
            res.wf(),
            res.seed() == seed@,
    {
        let public_key = ed25519_derive_public(seed);
        Identity { seed: *seed, public_key }
    }

    /// Restores an identity from the hex text of its seed (64 hex digits).
    pub fn from_seed_hex(hex_str: &str) -> (res: Result<Self, CryptoError>)
        ensures
            seed_hex_outcome(hex_str.spec_bytes(), res),
    {
        let bytes = match hex_decode(hex_str) {
            Ok(b) => b,
            Err(e) => return Err(CryptoError::HexError(e)),
        };
        if bytes.len() != 32 {
            return Err(CryptoError::InvalidKey(to_owned_string("Seed must be exactly 32 bytes (64 hex characters)")));
        }
        let mut seed = [0u8; 32];
        let mut i: usize = 0;
        while i < 32
            invariant
                bytes@.len() == 32,
                0 <= i <= 32,
                forall|j: int| 0 <= j < i ==> seed@[j] == bytes@[j],
            decreases 32 - i,
        {
            seed[i] = bytes[i];
            i = i + 1;
        }
        assert(seed@ =~= bytes@);
        Ok(Self::from_seed(&seed))
    }

    /// The hex text of the secret seed, for backup.
    pub fn to_seed_hex(&self) -> (res: String)
        ensures
            res@ == hex_lower(self.seed()),
    {
        hex_encode(&self.seed)
    }

    /// The public key bytes (32 bytes).
    pub fn public_key_bytes(&self) -> (res: [u8; 32])
        requires
            self.wf(),
        ensures
            res@ == self.public_key(),
    {
        self.public_key
    }

    /// The public key as 64 lowercase hex characters.
    pub fn public_key_hex(&self) -> (res: String)
        requires
            self.wf(),
        ensures
            res@ == hex_lower(self.public_key()),
    {
        hex_encode(&self.public_key)
    }

    /// The canonical user id: `bala:<public_key_hex>`.
    pub fn user_id(&self) -> (res: String)
        requires
            self.wf(),
        ensures
            res@ == user_id_of(self.public_key()),
    {
        let mut id = to_owned_string("bala:");
        let hex = self.public_key_hex();
        push_str(&mut id, hex.as_str());
        id
    }

    /// Signs binary data with the secret key.
    pub fn sign(&self, message: &[u8]) -> (res: [u8; 64])
        requires
            self.wf(),
        ensures
            res@ == ed25519_signature(self.seed(), message@),
            ed25519_verifies(self.public_key(), message@, res@),
    {
        ed25519_sign(&self.seed, message)
    }

    /// Signs data and returns the 128-character hex text of the signature.
    pub fn sign_hex(&self, message: &[u8]) -> (res: String)
        requires
            self.wf(),
        ensures
            res@ == hex_lower(ed25519_signature(self.seed(), message@)),
    {
        let sig = self.sign(message);
        hex_encode(&sig)
    }

    /// Verifies a signature of a message under a 32-byte public key.
    pub fn verify_signature(public_key_bytes: &[u8; 32], message: &[u8], signature_bytes: &[u8; 64]) -> (res: Result<(), CryptoError>)
        ensures
            match res {
                Ok(()) => ed25519_key_valid(public_key_bytes@) && ed25519_verifies(public_key_bytes@, message@, signature_bytes@),
                Err(CryptoError::InvalidKey(_)) => !ed25519_key_valid(public_key_bytes@),
                Err(CryptoError::SignatureVerificationFailed) => ed25519_key_valid(public_key_bytes@)
                    && !ed25519_verifies(public_key_bytes@, message@, signature_bytes@),
                Err(_) => false,
            },
    {
        match ed25519_check(public_key_bytes, message, signature_bytes) {
            SignatureCheck::KeyRejected(why) => Err(CryptoError::InvalidKey(why)),
            SignatureCheck::Mismatch => Err(CryptoError::SignatureVerificationFailed),
            SignatureCheck::Valid => Ok(()),
        }
    }

    /// Verifies a signature where the public key (optionally prefixed with
    /// `bala:`) and the signature are hex texts.
    pub fn verify_signature_hex(public_key_hex: &str, message: &[u8], signature_hex: &str) -> (res: Result<(), CryptoError>)
        ensures
            ({
                let pk = encode_utf8(strip(public_key_hex@, "bala:"@));
                let sg = signature_hex.spec_bytes();
                let pk_ok = hex_ok(pk) && hex_bytes(pk).len() == 32;
                let sg_ok = hex_ok(sg) && hex_bytes(sg).len() == 64;
                match res {
                    Ok(()) => pk_ok && sg_ok && ed25519_key_valid(hex_bytes(pk))
                        && ed25519_verifies(hex_bytes(pk), message@, hex_bytes(sg)),
                    Err(CryptoError::HexError(e)) => !hex_ok(pk) && hex_error_is(pk, e)
                        || pk_ok && !hex_ok(sg) && hex_error_is(sg, e),
                    Err(CryptoError::InvalidKey(m)) => hex_ok(pk) && hex_bytes(pk).len() != 32
                        && m@ == "Public key must be 32 bytes"@
                        || pk_ok && hex_ok(sg) && hex_bytes(sg).len() != 64 && m@ == "Signature must be 64 bytes"@
                        || pk_ok && sg_ok && !ed25519_key_valid(hex_bytes(pk)),
                    Err(CryptoError::SignatureVerificationFailed) => pk_ok && sg_ok && ed25519_key_valid(hex_bytes(pk))
                        && !ed25519_verifies(hex_bytes(pk), message@, hex_bytes(sg)),
                    Err(_) => false,
                }
            }),
    {
        let stripped = strip_prefix(public_key_hex, "bala:");
        let pk_clean: String = match stripped {
            Some(s) => s,
            None => to_owned_string(public_key_hex),
        };
        let pk_bytes = match hex_decode(pk_clean.as_str()) {
            Ok(b) => b,
            Err(e) => return Err(CryptoError::HexError(e)),
        };
        if pk_bytes.len() != 32 {
            return Err(CryptoError::InvalidKey(to_owned_string("Public key must be 32 bytes")));
        }
        let sig_bytes = match hex_decode(signature_hex) {
            Ok(b) => b,
            Err(e) => return Err(CryptoError::HexError(e)),
        };
        if sig_bytes.len() != 64 {
            return Err(CryptoError::InvalidKey(to_owned_string("Signature must be 64 bytes")));
        }
        let mut pk_arr = [0u8; 32];
        let mut i: usize = 0;
        while i < 32
            invariant
                pk_bytes@.len() == 32,
                0 <= i <= 32,
                forall|j: int| 0 <= j < i ==> pk_arr@[j] == pk_bytes@[j],
            decreases 32 - i,
        {
            pk_arr[i] = pk_bytes[i];
            i = i + 1;
        }
        let mut sig_arr = [0u8; 64];
        let mut i: usize = 0;
        while i < 64
            invariant
                sig_bytes@.len() == 64,
                0 <= i <= 64,
                forall|j: int| 0 <= j < i ==> sig_arr@[j] == sig_bytes@[j],
            decreases 64 - i,
        {
            sig_arr[i] = sig_bytes[i];
            i = i + 1;
        }
        assert(pk_arr@ =~= pk_bytes@);
        assert(sig_arr@ =~= sig_bytes@);
        Self::verify_signature(&pk_arr, message, &sig_arr)
    }
}

// ---------------------------------------------------------------------------
// XChaCha20-Poly1305
// ---------------------------------------------------------------------------

/// The XChaCha20-Poly1305 sealing (ciphertext then 16-byte tag) of `plaintext`
/// under `key` and a 24-byte `nonce`, with no associated data.
pub uninterp spec fn xchacha_seal(key: Seq<u8>, nonce: Seq<u8>, plaintext: Seq<u8>) -> Seq<u8>;

/// The plaintext of a sealed message, when its tag authenticates under `key`
/// and `nonce`.
pub uninterp spec fn xchacha_open(key: Seq<u8>, nonce: Seq<u8>, sealed: Seq<u8>) -> Option<Seq<u8>>;

/// What a payload of a nonce and a sealed message opens to under `key`:
/// nothing when it is shorter than a nonce and a tag.
pub open spec fn e2ee_open(key: Seq<u8>, payload: Seq<u8>) -> Option<Seq<u8>> {
    if payload.len() < 40 {
        None
    } else {
        xchacha_open(key, payload.take(24), payload.skip(24))
    }
}

/// Plaintexts up to this many 64-byte blocks can be sealed.
pub open spec fn sealable(plaintext: Seq<u8>) -> bool {
    plaintext.len() / 64 < 0xFFFF_FFFF
}

/// `Aead::encrypt` of `XChaCha20Poly1305::new(key)` with `nonce`: the sealed
/// message, tag included, which opens under the same key and nonce to the
/// plaintext; too long a plaintext is refused.
#[verifier::external_body]
fn xchacha_encrypt(key: &[u8; 32], nonce: &[u8; 24], plaintext: &[u8]) -> (res: Result<Vec<u8>, ()>)
    ensures
        sealable(plaintext@) ==> res is Ok,
        res matches Ok(c) ==> c@ == xchacha_seal(key@, nonce@, plaintext@) && c@.len() == plaintext@.len() + 16,
        res matches Ok(c) ==> xchacha_open(key@, nonce@, c@) == Some(plaintext@),
{
    let cipher = chacha20poly1305::XChaCha20Poly1305::new(key.into());
    cipher.encrypt(chacha20poly1305::XNonce::from_slice(nonce), plaintext).map_err(|_| ())
}

/// `Aead::decrypt` of `XChaCha20Poly1305::new(key)` with `nonce`: the
/// plaintext when the tag authenticates, else an error.
#[verifier::external_body]
fn xchacha_decrypt(key: &[u8; 32], nonce: &[u8; 24], sealed: &[u8]) -> (res: Result<Vec<u8>, ()>)
    ensures
        res matches Ok(p) ==> xchacha_open(key@, nonce@, sealed@) == Some(p@),
        res is Err ==> xchacha_open(key@, nonce@, sealed@) is None,
{
    let cipher = chacha20poly1305::XChaCha20Poly1305::new(key.into());
    cipher.decrypt(chacha20poly1305::XNonce::from_slice(nonce), sealed).map_err(|_| ())
}

/// `OsRng::fill_bytes`: a 24-byte nonce from the operating system's secure
/// random source. Nothing is promised of its value.
#[verifier::external_body]
fn random_nonce() -> [u8; 24] {
    let mut nonce = [0u8; 24];
    rand::rngs::OsRng.fill_bytes(&mut nonce);
    nonce
}

/// Symmetric end-to-end encryption using XChaCha20-Poly1305. A random 24-byte
/// nonce is made for every message and put in front of the sealed message.
pub struct E2eeCipher;

impl E2eeCipher {
    /// Encrypts `plaintext` with a 32-byte shared key. Output:
    /// `[24-byte nonce] + [ciphertext + 16-byte tag]`; `decrypt` under the
    /// same key gives the plaintext back.
    pub fn encrypt(key: &[u8; 32], plaintext: &[u8]) -> (res: Result<Vec<u8>, CryptoError>)
        ensures
            sealable(plaintext@) ==> res is Ok,
            res matches Ok(v) ==> {
                &&& e2ee_open(key@, v@) == Some(plaintext@)
                &&& v@.len() == plaintext@.len() + 40
                &&& v@.skip(24) == xchacha_seal(key@, v@.take(24), plaintext@)
            },
            res matches Err(e) ==> e is DecryptionFailed,
    {
        let nonce = random_nonce();
        let sealed = match xchacha_encrypt(key, &nonce, plaintext) {
            Ok(c) => c,
            Err(()) => return Err(CryptoError::DecryptionFailed),
        };
        let mut result: Vec<u8> = Vec::new();
        let mut i: usize = 0;
        while i < 24
            invariant
                0 <= i <= 24,
                result@ == nonce@.take(i as int),
            decreases 24 - i,
        {
            result.push(nonce[i]);
            i = i + 1;
            assert(result@ =~= nonce@.take(i as int));
        }
        let mut j: usize = 0;
        while j < sealed.len()
            invariant
                0 <= j <= sealed@.len(),
                result@ == nonce@ + sealed@.take(j as int),
            decreases sealed@.len() - j,
        {
            result.push(sealed[j]);
            j = j + 1;
            assert(result@ =~= nonce@ + sealed@.take(j as int));
        }
        assert(sealed@.take(sealed@.len() as int) =~= sealed@);
        assert(nonce@.take(24) =~= nonce@);
        assert(result@.take(24) =~= nonce@);
        assert(result@.skip(24) =~= sealed@);
        Ok(result)
    }

    /// Decrypts a payload made of a 24-byte nonce and a sealed message.
    pub fn decrypt(key: &[u8; 32], payload: &[u8]) -> (res: Result<Vec<u8>, CryptoError>)
        ensures
            payload@.len() < 40 ==> res matches Err(CryptoError::PayloadTooShort),
            payload@.len() >= 40 ==> match res {
                Ok(p) => e2ee_open(key@, payload@) == Some(p@),
                Err(e) => e is DecryptionFailed && e2ee_open(key@, payload@) is None,
            },
    {
        if payload.len() < 40 {
            return Err(CryptoError::PayloadTooShort);
        }
        let mut nonce = [0u8; 24];
        let mut i: usize = 0;
        while i < 24
            invariant
                payload@.len() >= 40,
                0 <= i <= 24,
                forall|j: int| 0 <= j < i ==> nonce@[j] == payload@[j],
            decreases 24 - i,
        {
            nonce[i] = payload[i];
            i = i + 1;
        }
        let mut sealed: Vec<u8> = Vec::new();
        let mut k: usize = 24;
        while k < payload.len()
            invariant
                24 <= k <= payload@.len(),
                sealed@ == payload@.subrange(24, k as int),
            decreases payload@.len() - k,
        {
            sealed.push(payload[k]);
            k = k + 1;
            assert(sealed@ =~= payload@.subrange(24, k as int));
        }
        assert(nonce@ =~= payload@.take(24));
        assert(sealed@ =~= payload@.skip(24));
        match xchacha_decrypt(key, &nonce, sealed.as_slice()) {
            Ok(p) => Ok(p),
            Err(()) => Err(CryptoError::DecryptionFailed),
        }
    }
}

/// A contact identified by its Ed25519 public key.
#[derive(Debug, Clone, PartialEq, Eq)]
pub struct ContactCard {
    pub user_id: String,
    pub public_key_hex: String,
    pub display_name: String,
    pub avatar_url: Option<String>,
    pub bio: Option<String>,
}

} // verus!
