//! Records of the local store (messages, rooms, members, channels) and the
//! rule for contacts that stand for a bare endpoint.

use vstd::prelude::*;
use crate::crypto::ContactCard;
use crate::text::{chars_of, push_str, starts_with, string_of, to_owned_string};

verus! {

/// A chat message as stored.
#[derive(Debug, Clone, PartialEq, Eq)]
pub struct StoredMessage {
    pub id: String,
    pub channel_id: String,
    pub author_id: String,
    pub content: String,
    pub attachments: Vec<String>,
    pub timestamp_ms: i64,
    pub signature_hex: Option<String>,
}

/// A room (a group of channels) as stored.
#[derive(Debug, Clone, PartialEq, Eq)]
pub struct StoredRoom {
    pub id: String,
    pub name: String,
    /// Shown in the icon sidebar.
    pub emoji: String,
    pub invite_code: Option<String>,
    pub created_at: i64,
}

/// A member of a room as stored.
#[derive(Debug, Clone, PartialEq, Eq)]
pub struct StoredRoomMember {
    pub room_id: String,
    pub user_id: String,
    pub role: String,
    pub joined_at: i64,
}

/// A channel as stored; its type is `text`, `voice` or `video`.
#[derive(Debug, Clone, PartialEq, Eq)]
pub struct StoredChannel {
    pub id: String,
    pub server_id: Option<String>,
    pub name: String,
    pub channel_type: String,
    pub topic: Option<String>,
    pub created_at: i64,
}

/// `s` with every `:` replaced by `_`.
pub open spec fn colons_to_underscores(s: Seq<char>) -> Seq<char> {
    s.map_values(|c: char| if c == ':' { '_' } else { c })
}

/// The id of the stand-in contact of a bare endpoint: `peer:` and the
/// endpoint with `:` replaced by `_`.
pub open spec fn peer_stub_id_of(endpoint: Seq<char>) -> Seq<char> {
    "peer:"@ + colons_to_underscores(endpoint)
}

/// The id of the stand-in contact of a bare endpoint.
pub fn peer_stub_id(endpoint: &str) -> (res: String)
    ensures
        res@ == peer_stub_id_of(endpoint@),
{
    let cs = chars_of(endpoint);
    let mut out: Vec<char> = Vec::new();
    let mut i: usize = 0;
    while i < cs.len()
        invariant
            cs@ == endpoint@,
            0 <= i <= cs@.len(),
            out@ == colons_to_underscores(endpoint@.take(i as int)),
        decreases cs@.len() - i,
    {
        let c = cs[i];
        out.push(if c == ':' { '_' } else { c });
        i = i + 1;
        assert(out@ =~= colons_to_underscores(endpoint@.take(i as int)));
    }
    assert(endpoint@.take(cs@.len() as int) =~= endpoint@);
    let mut id = to_owned_string("peer:");
    let tail = string_of(out.as_slice());
    push_str(&mut id, tail.as_str());
    id
}

/// What the store does before writing a contact.
#[derive(Debug, Clone, PartialEq, Eq)]
pub enum ContactSavePlan {
    /// A keyed contact with a known endpoint: first drop the stand-in
    /// contacts of that endpoint (those whose bio is the endpoint or whose
    /// id is its stub id), then write.
    ReplaceStubs { endpoint: String, stub_id: String },
    /// A stand-in contact: write it only if no keyed contact has this
    /// endpoint as its bio.
    WriteUnlessKeyed { endpoint: String },
    /// Write the contact as it is.
    Write,
}

/// Decides how a contact is saved: keyed (`bala:`) contacts with an
/// endpoint replace the stand-ins of that endpoint; stand-in (`peer:`)
/// contacts with an endpoint yield to a keyed contact of that endpoint.
pub fn contact_save_plan(contact: &ContactCard) -> (res: ContactSavePlan)
    ensures
        ("bala:"@.is_prefix_of(contact.user_id@) && contact.bio is Some) ==> (res matches ContactSavePlan::ReplaceStubs {
            endpoint,
            stub_id,
        } && endpoint@ == contact.bio->0@ && stub_id@ == peer_stub_id_of(contact.bio->0@)),
        (!"bala:"@.is_prefix_of(contact.user_id@) && "peer:"@.is_prefix_of(contact.user_id@) && contact.bio is Some)
            ==> (res matches ContactSavePlan::WriteUnlessKeyed { endpoint } && endpoint@ == contact.bio->0@),
        (contact.bio is None || !"bala:"@.is_prefix_of(contact.user_id@) && !"peer:"@.is_prefix_of(contact.user_id@))
            ==> res is Write,
{
    if starts_with(contact.user_id.as_str(), "bala:") {
        match &contact.bio {
            Some(ep) => ContactSavePlan::ReplaceStubs { endpoint: ep.clone(), stub_id: peer_stub_id(ep.as_str()) },
            None => ContactSavePlan::Write,
        }
    } else if starts_with(contact.user_id.as_str(), "peer:") {
        match &contact.bio {
            Some(ep) => ContactSavePlan::WriteUnlessKeyed { endpoint: ep.clone() },
            None => ContactSavePlan::Write,
        }
    } else {
        ContactSavePlan::Write
    }
}

} // verus!
