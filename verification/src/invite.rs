//! Invite links: `bala://offer/<token>` and `bala://answer/<token>`, where
//! the token is the unpadded URL-safe base64 of a JSON description of a peer.
//! The JSON itself is written and read outside this module; here the links
//! are framed, unframed, and the parsed alternatives are decided between.

use vstd::prelude::*;
use base64::Engine;
use crate::addr::Endpoint;
use crate::text::{is_white_space, lemma_trimmed_unchanged, push_str, to_owned_string, trim, trimmed};
use crate::crypto::strip_prefix;

verus! {

// ---------------------------------------------------------------------------
// Unpadded URL-safe base64
// ---------------------------------------------------------------------------

/// The unpadded URL-safe base64 text of `data`.
pub uninterp spec fn base64_url_encoding(data: Seq<u8>) -> Seq<char>;

/// The bytes that an unpadded URL-safe base64 text stands for, when it is one.
pub uninterp spec fn base64_url_decoding(text: Seq<char>) -> Option<Seq<u8>>;

/// A character of the URL-safe base64 alphabet.
pub open spec fn is_url_safe_char(c: char) -> bool {
    ('A' <= c <= 'Z') || ('a' <= c <= 'z') || ('0' <= c <= '9') || c == '-' || c == '_'
}

/// `URL_SAFE_NO_PAD.encode`: the text is made of the URL-safe alphabet, and
/// decoding it gives `data` back.
#[verifier::external_body]
fn base64_url_encode(data: &[u8]) -> (res: String)
    ensures
        res@ == base64_url_encoding(data@),
        forall|i: int| 0 <= i < res@.len() ==> is_url_safe_char(#[trigger] res@[i]),
        base64_url_decoding(res@) == Some(data@),
{
    base64::engine::general_purpose::URL_SAFE_NO_PAD.encode(data)
}

/// `URL_SAFE_NO_PAD.decode`: the bytes of a token, or `None` when it is not
/// unpadded URL-safe base64. Which decode error occurred is not kept.
#[verifier::external_body]
fn base64_url_decode(text: &str) -> (res: Option<Vec<u8>>)
    ensures
        match res {
            Some(v) => base64_url_decoding(text@) == Some(v@),
            None => base64_url_decoding(text@) is None,
        },
{
    base64::engine::general_purpose::URL_SAFE_NO_PAD.decode(text).ok()
}

// ---------------------------------------------------------------------------
// Links
// ---------------------------------------------------------------------------

/// The link of an offer whose JSON text is `json`.
pub open spec fn offer_link_of(json: Seq<u8>) -> Seq<char> {
    "bala://offer/"@ + base64_url_encoding(json)
}

/// The link of an answer whose JSON text is `json`.
pub open spec fn answer_link_of(json: Seq<u8>) -> Seq<char> {
    "bala://answer/"@ + base64_url_encoding(json)
}

/// The token of a pasted link: trimmed, then without `scheme_prefix`, or
/// else without `bala://`, or else whole.
pub open spec fn token_of(raw: Seq<char>, scheme_prefix: Seq<char>) -> Seq<char> {
    let t = trimmed(raw);
    if scheme_prefix.is_prefix_of(t) {
        t.skip(scheme_prefix.len() as int)
    } else if "bala://"@.is_prefix_of(t) {
        t.skip("bala://"@.len() as int)
    } else {
        t
    }
}

/// The JSON bytes that a pasted offer link carries, when its token decodes.
pub open spec fn offer_payload_of(raw: Seq<char>) -> Option<Seq<u8>> {
    base64_url_decoding(token_of(raw, "bala://offer/"@))
}

/// The JSON bytes that a pasted answer link carries, when its token decodes.
pub open spec fn answer_payload_of(raw: Seq<char>) -> Option<Seq<u8>> {
    base64_url_decoding(token_of(raw, "bala://answer/"@))
}

proof fn lemma_link_token(prefix: Seq<char>, enc: Seq<char>)
    requires
        prefix.len() > 0,
        !is_white_space(prefix[0]),
        !is_white_space(prefix.last()),
        forall|i: int| 0 <= i < enc.len() ==> is_url_safe_char(#[trigger] enc[i]),
    ensures
        token_of(prefix + enc, prefix) == enc,
{
    let l = prefix + enc;
    if enc.len() > 0 {
        assert(is_url_safe_char(enc[enc.len() - 1]));
        assert(l.last() == enc[enc.len() - 1]);
    }
    lemma_trimmed_unchanged(l);
    assert(prefix.is_prefix_of(l)) by {
        assert(l.subrange(0, prefix.len() as int) =~= prefix);
    }
    assert(l.skip(prefix.len() as int) =~= enc);
}

/// Frames the JSON text of an offer as `bala://offer/<token>`. Pasting the
/// link back gives the same JSON.
pub fn create_offer_link(offer_json: &[u8]) -> (res: String)
    ensures
        res@ == offer_link_of(offer_json@),
        offer_payload_of(res@) == Some(offer_json@),
{
    let mut link = to_owned_string("bala://offer/");
    let encoded = base64_url_encode(offer_json);
    push_str(&mut link, encoded.as_str());
    proof {
        reveal_strlit("bala://offer/");
        lemma_link_token("bala://offer/"@, encoded@);
    }
    link
}

/// Frames the JSON text of an answer as `bala://answer/<token>`. Pasting the
/// link back gives the same JSON.
pub fn create_answer_link(answer_json: &[u8]) -> (res: String)
    ensures
        res@ == answer_link_of(answer_json@),
        answer_payload_of(res@) == Some(answer_json@),
{
    let mut link = to_owned_string("bala://answer/");
    let encoded = base64_url_encode(answer_json);
    push_str(&mut link, encoded.as_str());
    proof {
        reveal_strlit("bala://answer/");
        lemma_link_token("bala://answer/"@, encoded@);
    }
    link
}

/// The token of a pasted link (see `token_of`).
pub fn link_token(raw_input: &str, scheme_prefix: &str) -> (res: String)
    ensures
        res@ == token_of(raw_input@, scheme_prefix@),
{
    let t = trim(raw_input);
    match strip_prefix(t.as_str(), scheme_prefix) {
        Some(rest) => rest,
        None => match strip_prefix(t.as_str(), "bala://") {
            Some(rest) => rest,
            None => t,
        },
    }
}

/// The JSON bytes carried by a pasted offer link, when its token is
/// unpadded URL-safe base64.
pub fn offer_payload(raw_input: &str) -> (res: Option<Vec<u8>>)
    ensures
        match res {
            Some(v) => offer_payload_of(raw_input@) == Some(v@),
            None => offer_payload_of(raw_input@) is None,
        },
{
    let token = link_token(raw_input, "bala://offer/");
    base64_url_decode(token.as_str())
}

/// The JSON bytes carried by a pasted answer link, when its token is
/// unpadded URL-safe base64.
pub fn answer_payload(raw_input: &str) -> (res: Option<Vec<u8>>)
    ensures
        match res {
            Some(v) => answer_payload_of(raw_input@) == Some(v@),
            None => answer_payload_of(raw_input@) is None,
        },
{
    let token = link_token(raw_input, "bala://answer/");
    base64_url_decode(token.as_str())
}

// ---------------------------------------------------------------------------
// Choosing what a pasted link means
// ---------------------------------------------------------------------------

/// A host's invitation: its name, its room and the endpoints to try.
#[derive(Debug, Clone, PartialEq, Eq)]
pub struct OfferData {
    pub name: String,
    pub room: String,
    pub candidates: Vec<Endpoint>,
}

/// A guest's reply: its name and the endpoints to try.
#[derive(Debug, Clone, PartialEq, Eq)]
pub struct AnswerData {
    pub name: String,
    pub candidates: Vec<Endpoint>,
}

/// An invitation of the older single-address format; an address that did
/// not parse is absent.
#[derive(Debug, Clone, PartialEq, Eq)]
pub struct LegacyInvite {
    pub name: String,
    pub room: String,
    pub loc: Option<Endpoint>,
    pub pub_addr: Option<Endpoint>,
}

/// The endpoints of a legacy invitation: the local one, then the public one
/// unless it is the same.
pub open spec fn legacy_candidates(loc: Option<Endpoint>, pub_addr: Option<Endpoint>) -> Seq<Endpoint> {
    let first = match loc {
        Some(l) => seq![l],
        None => Seq::empty(),
    };
    match pub_addr {
        Some(p) => if first.contains(p) { first } else { first.push(p) },
        None => first,
    }
}

/// The name given to an offer made of a bare address.
pub open spec fn direct_offer_name() -> Seq<char> {
    "Прямой узел"@
}

/// The room given to an offer made of a bare address.
pub open spec fn direct_offer_room() -> Seq<char> {
    "Комната"@
}

/// The name given to an answer made of a bare address.
pub open spec fn direct_answer_name() -> Seq<char> {
    "Узел-клиент"@
}

/// The message for a pasted text that is no offer.
pub open spec fn bad_offer_message() -> Seq<char> {
    "Неверный формат Offer. Вставьте ссылку вида bala://offer/..."@
}

/// The message for a pasted text that is no answer.
pub open spec fn bad_answer_message() -> Seq<char> {
    "Неверный формат Answer. Вставьте ссылку вида bala://answer/..."@
}

/// Decides what a pasted offer means, given what its JSON parsed to as an
/// offer (`decoded`) and as a legacy invitation (`legacy`), and what the
/// whole trimmed text parsed to as an address (`direct`): an offer with
/// candidates first, then a legacy invitation with at least one address,
/// then a bare address, else an error.
pub fn resolve_offer(decoded: Option<OfferData>, legacy: Option<LegacyInvite>, direct: Option<Endpoint>) -> (res: Result<
    OfferData,
    String,
>)
    ensures
        (match decoded {
            Some(d) if d.candidates@.len() > 0 => res == Ok::<OfferData, String>(d),
            _ => match legacy {
                Some(l) if legacy_candidates(l.loc, l.pub_addr).len() > 0 => res matches Ok(o) && o.name == l.name
                    && o.room == l.room && o.candidates@ == legacy_candidates(l.loc, l.pub_addr),
                _ => match direct {
                    Some(a) => res matches Ok(o) && o.name@ == direct_offer_name() && o.room@
                        == direct_offer_room() && o.candidates@ == seq![a],
                    None => res matches Err(m) && m@ == bad_offer_message(),
                },
            },
        }),
{
    if let Some(d) = decoded {
        if d.candidates.len() > 0 {
            return Ok(d);
        }
    }
    if let Some(l) = legacy {
        let mut c: Vec<Endpoint> = Vec::new();
        if let Some(a) = l.loc {
            c.push(a);
        }
        if let Some(p) = l.pub_addr {
            let dup = match l.loc {
                Some(a) => a.same_as(&p),
                None => false,
            };
            if !dup {
                c.push(p);
            }
            proof {
                assert(c@.len() > 0);
            }
        }
        proof {
            let first: Seq<Endpoint> = match l.loc {
                Some(a) => seq![a],
                None => Seq::empty(),
            };
            if let Some(p) = l.pub_addr {
                if let Some(a) = l.loc {
                    assert(first.contains(p) <==> a == p) by {
                        if first.contains(p) {
                            assert(first[0] == a);
                        }
                        if a == p {
                            assert(first[0] == p);
                        }
                    }
                }
            }
            assert(c@ =~= legacy_candidates(l.loc, l.pub_addr));
        }
        if c.len() > 0 {
            return Ok(OfferData { name: l.name, room: l.room, candidates: c });
        }
    }
    match direct {
        Some(a) => {
            let mut c: Vec<Endpoint> = Vec::new();
            c.push(a);
            Ok(OfferData { name: to_owned_string("Прямой узел"), room: to_owned_string("Комната"), candidates: c })
        },
        None => Err(to_owned_string("Неверный формат Offer. Вставьте ссылку вида bala://offer/...")),
    }
}

/// Decides what a pasted answer means: the parsed answer when it has
/// candidates, else a bare address, else an error.
pub fn resolve_answer(decoded: Option<AnswerData>, direct: Option<Endpoint>) -> (res: Result<AnswerData, String>)
    ensures
        (match decoded {
            Some(d) if d.candidates@.len() > 0 => res == Ok::<AnswerData, String>(d),
            _ => match direct {
                Some(a) => res matches Ok(o) && o.name@ == direct_answer_name() && o.candidates@ == seq![a],
                None => res matches Err(m) && m@ == bad_answer_message(),
            },
        }),
{
    if let Some(d) = decoded {
        if d.candidates.len() > 0 {
            return Ok(d);
        }
    }
    match direct {
        Some(a) => {
            let mut c: Vec<Endpoint> = Vec::new();
            c.push(a);
            Ok(AnswerData { name: to_owned_string("Узел-клиент"), candidates: c })
        },
        None => Err(to_owned_string("Неверный формат Answer. Вставьте ссылку вида bala://answer/...")),
    }
}

} // verus!
